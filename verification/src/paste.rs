//! Putting a transcript where the user types: over the clipboard and with simulated keys.

use vstd::prelude::*;

use crate::error;
use crate::error::AppError;
use crate::platform::Platform;
use crate::text;

verus! {

/// The keys that pasting presses.
#[derive(Clone, Copy, Debug, PartialEq, Eq, Structural)]
pub enum PasteKey {
    Modifier,
    V,
    Return,
}

/// The key that is held down while pasting.
#[derive(Clone, Copy, Debug, PartialEq, Eq, Structural)]
pub enum ModifierKey {
    Meta,
    Control,
}

/// How the letter V is typed: by the code of its key, or as a character.
#[derive(Clone, Copy, Debug, PartialEq, Eq, Structural)]
pub enum LetterKey {
    Code(u32),
    Character(char),
}

/// The next thing to do for a paste; it is done outside.
#[derive(Clone, Copy, Debug, PartialEq, Eq, Structural)]
pub enum PasteAction {
    OpenClipboard,
    /// Remember what the clipboard holds.
    SaveClipboard,
    /// Put the transcript into the clipboard.
    WriteTranscript,
    Wait { milliseconds: u64 },
    /// Get access to the simulated keyboard.
    OpenKeyboard,
    Press { key: PasteKey },
    Release { key: PasteKey },
    /// Put back what the clipboard held.
    RestoreClipboard,
    Finished,
}

/// The keys of the paste shortcut.
pub fn paste_keys(platform: Platform) -> (keys: (ModifierKey, LetterKey))
    ensures
        keys == match platform {
            Platform::MacOs => (ModifierKey::Meta, LetterKey::Code(9)),
            Platform::Windows => (ModifierKey::Control, LetterKey::Code(0x56)),
            Platform::Other => (ModifierKey::Control, LetterKey::Character('v')),
        },
{
    match platform {
        Platform::MacOs => (ModifierKey::Meta, LetterKey::Code(9)),
        Platform::Windows => (ModifierKey::Control, LetterKey::Code(0x56)),
        Platform::Other => (ModifierKey::Control, LetterKey::Character('v')),
    }
}

/// How the Return key follows the paste: late enough that the text has arrived.
pub open spec fn submit_script(submit: bool) -> Seq<PasteAction> {
    if submit {
        seq![
            PasteAction::Wait { milliseconds: 250 },
            PasteAction::Press { key: PasteKey::Return },
            PasteAction::Release { key: PasteKey::Return },
        ]
    } else {
        Seq::empty()
    }
}

/// What a paste does, in order.
pub open spec fn paste_script(submit: bool) -> Seq<PasteAction> {
    seq![
        PasteAction::OpenClipboard,
        PasteAction::SaveClipboard,
        PasteAction::WriteTranscript,
        PasteAction::Wait { milliseconds: 50 },
        PasteAction::OpenKeyboard,
        PasteAction::Press { key: PasteKey::Modifier },
        PasteAction::Press { key: PasteKey::V },
        PasteAction::Release { key: PasteKey::V },
        PasteAction::Release { key: PasteKey::Modifier },
    ] + submit_script(submit) + seq![
        PasteAction::Wait { milliseconds: 100 },
        PasteAction::RestoreClipboard,
    ]
}

/// What copying a text does, in order.
pub open spec fn copy_script() -> Seq<PasteAction> {
    seq![PasteAction::OpenClipboard, PasteAction::WriteTranscript]
}

/// What an error says in front of its reason; none where the work goes on all the same.
pub open spec fn failure_text(action: PasteAction) -> Option<Seq<char>> {
    match action {
        PasteAction::OpenClipboard => Some("Failed to access clipboard: "@),
        PasteAction::WriteTranscript => Some("Failed to write transcript to clipboard: "@),
        PasteAction::OpenKeyboard => Some("Failed to initialize input automation: "@),
        PasteAction::Press { key: PasteKey::Modifier } => Some("Failed to press modifier key: "@),
        PasteAction::Press { key: PasteKey::V } => Some("Failed to press paste key: "@),
        PasteAction::Press { key: PasteKey::Return } => Some("Failed to press Return key: "@),
        PasteAction::Release { key: PasteKey::Modifier } => Some(
            "Failed to release modifier key: "@,
        ),
        PasteAction::Release { key: PasteKey::V } => Some("Failed to release paste key: "@),
        PasteAction::Release { key: PasteKey::Return } => Some("Failed to release Return key: "@),
        _ => None,
    }
}

/// A paste that is under way.
pub struct PasteRun {
    script: Vec<PasteAction>,
    position: usize,
    saved: bool,
}

/// How a paste starts.
pub enum PasteStart {
    /// There is nothing to paste.
    Nothing,
    /// The user is to be asked for the permission, and the paste fails.
    NeedsPermission(AppError),
    Run(PasteRun),
}

impl PasteRun {
    /// What the run does in all.
    pub closed spec fn script(self) -> Seq<PasteAction> {
        self.script@
    }

    /// How much of it is done.
    pub closed spec fn position(self) -> nat {
        self.position as nat
    }

    /// Whether the clipboard's text is known, so that it can be put back.
    pub closed spec fn saved(self) -> bool {
        self.saved
    }

    /// What is to be done now.
    pub open spec fn action(self) -> PasteAction {
        if self.position() >= self.script().len() {
            PasteAction::Finished
        } else {
            let action = self.script()[self.position() as int];
            if action == PasteAction::RestoreClipboard && !self.saved() {
                PasteAction::Finished
            } else {
                action
            }
        }
    }

    /// What is to be done now.
    pub fn next_action(&self) -> (action: PasteAction)
        ensures
            action == self.action(),
    {
        if self.position >= self.script.len() {
            return PasteAction::Finished;
        }
        let action = self.script[self.position];
        match action {
            PasteAction::RestoreClipboard => {
                if self.saved {
                    action
                } else {
                    PasteAction::Finished
                }
            },
            _ => action,
        }
    }

    /// Takes in how the action ended. An error ends the run, except where the clipboard could
    /// not be read or put back.
    pub fn advance(&mut self, outcome: Result<(), String>) -> (next: Result<(), AppError>)
        ensures
            match (outcome, failure_text(old(self).action())) {
                (Err(why), Some(what)) => {
                    &&& next matches Err(e) && error::says(e, what + why@)
                    &&& *final(self) == *old(self)
                },
                _ => next is Ok && goes_on(*old(self), outcome is Ok, *final(self)),
            },
    {
        let action = self.next_action();
        if let Err(why) = outcome {
            match action {
                PasteAction::OpenClipboard => {
                    return Err(AppError::because("Failed to access clipboard: ", why.as_str()));
                },
                PasteAction::WriteTranscript => {
                    return Err(
                        AppError::because(
                            "Failed to write transcript to clipboard: ",
                            why.as_str(),
                        ),
                    );
                },
                PasteAction::OpenKeyboard => {
                    return Err(
                        AppError::because("Failed to initialize input automation: ", why.as_str()),
                    );
                },
                PasteAction::Press { key } => {
                    let what = match key {
                        PasteKey::Modifier => "Failed to press modifier key: ",
                        PasteKey::V => "Failed to press paste key: ",
                        PasteKey::Return => "Failed to press Return key: ",
                    };
                    return Err(AppError::because(what, why.as_str()));
                },
                PasteAction::Release { key } => {
                    let what = match key {
                        PasteKey::Modifier => "Failed to release modifier key: ",
                        PasteKey::V => "Failed to release paste key: ",
                        PasteKey::Return => "Failed to release Return key: ",
                    };
                    return Err(AppError::because(what, why.as_str()));
                },
                PasteAction::SaveClipboard => {
                    self.saved = false;
                },
                _ => {},
            }
        } else {
            match action {
                PasteAction::SaveClipboard => {
                    self.saved = true;
                },
                _ => {},
            }
        }
        match action {
            PasteAction::Finished => {},
            _ => {
                assert(self.position < self.script.len());
                self.position = self.position + 1;
            },
        }
        Ok(())
    }
}

/// Whether `after` is the run that goes on from `before` once its action has ended, well or not.
pub open spec fn goes_on(before: PasteRun, well: bool, after: PasteRun) -> bool {
    &&& after.script() == before.script()
    &&& after.position() == before.position() + if before.action() == PasteAction::Finished {
        0nat
    } else {
        1nat
    }
    &&& after.saved() == if before.action() == PasteAction::SaveClipboard {
        well
    } else {
        before.saved()
    }
}

fn start(script: Vec<PasteAction>) -> (run: PasteRun)
    ensures
        run.script() == script@,
        run.position() == 0,
        !run.saved(),
{
    PasteRun { script, position: 0, saved: false }
}

/// Starts to paste a text, and to submit it with the Return key where asked to.
pub fn copy_and_paste_text(transcript: &str, submit_with_enter: bool, granted: bool) -> (start:
    PasteStart)
    ensures
        match start {
            PasteStart::Nothing => text::trim(transcript@).len() == 0,
            PasteStart::NeedsPermission(e) => {
                &&& text::trim(transcript@).len() > 0
                &&& !granted
                &&& error::says(
                    e,
                    "Accessibility permission is required for auto-paste. Enable Diktovani in System Settings > Privacy & Security > Accessibility."@,
                )
            },
            PasteStart::Run(run) => {
                &&& text::trim(transcript@).len() > 0
                &&& granted
                &&& run.script() == paste_script(submit_with_enter)
                &&& run.position() == 0
                &&& !run.saved()
            },
        },
{
    if text::is_blank(transcript) {
        return PasteStart::Nothing;
    }
    if !granted {
        return PasteStart::NeedsPermission(
            AppError::new(
                "Accessibility permission is required for auto-paste. Enable Diktovani in System Settings > Privacy & Security > Accessibility.",
            ),
        );
    }
    let mut script: Vec<PasteAction> = Vec::new();
    script.push(PasteAction::OpenClipboard);
    script.push(PasteAction::SaveClipboard);
    script.push(PasteAction::WriteTranscript);
    script.push(PasteAction::Wait { milliseconds: 50 });
    script.push(PasteAction::OpenKeyboard);
    script.push(PasteAction::Press { key: PasteKey::Modifier });
    script.push(PasteAction::Press { key: PasteKey::V });
    script.push(PasteAction::Release { key: PasteKey::V });
    script.push(PasteAction::Release { key: PasteKey::Modifier });
    if submit_with_enter {
        script.push(PasteAction::Wait { milliseconds: 250 });
        script.push(PasteAction::Press { key: PasteKey::Return });
        script.push(PasteAction::Release { key: PasteKey::Return });
    }
    script.push(PasteAction::Wait { milliseconds: 100 });
    script.push(PasteAction::RestoreClipboard);
    assert(script@ =~= paste_script(submit_with_enter));
    PasteStart::Run(start(script))
}

/// Starts to copy a text to the clipboard; nothing is to be done for a blank one.
pub fn copy_text_to_clipboard(transcript: &str) -> (run: Option<PasteRun>)
    ensures
        match run {
            None => text::trim(transcript@).len() == 0,
            Some(r) => {
                &&& text::trim(transcript@).len() > 0
                &&& r.script() == copy_script()
                &&& r.position() == 0
                &&& !r.saved()
            },
        },
{
    if text::is_blank(transcript) {
        return None;
    }
    let mut script: Vec<PasteAction> = Vec::new();
    script.push(PasteAction::OpenClipboard);
    script.push(PasteAction::WriteTranscript);
    assert(script@ =~= copy_script());
    Some(start(script))
}

/// The keys that are down once the given actions are done.
pub open spec fn keys_down(actions: Seq<PasteAction>) -> Set<PasteKey>
    decreases actions.len(),
{
    if actions.len() == 0 {
        Set::empty()
    } else {
        let before = keys_down(actions.drop_last());
        match actions.last() {
            PasteAction::Press { key } => before.insert(key),
            PasteAction::Release { key } => before.remove(key),
            _ => before,
        }
    }
}

proof fn lemma_keys_down_step(actions: Seq<PasteAction>, action: PasteAction)
    ensures
        keys_down(actions.push(action)) == match action {
            PasteAction::Press { key } => keys_down(actions).insert(key),
            PasteAction::Release { key } => keys_down(actions).remove(key),
            _ => keys_down(actions),
        },
{
    assert(actions.push(action).drop_last() =~= actions);
}

proof fn lemma_keys_down_later(actions: Seq<PasteAction>, n: int, m: int)
    requires
        0 <= n <= m <= actions.len(),
        forall|i: int|
            n <= i < m ==> !((#[trigger] actions[i]) is Press) && !(actions[i] is Release),
    ensures
        keys_down(actions.take(m)) == keys_down(actions.take(n)),
    decreases m - n,
{
    if n < m {
        lemma_keys_down_later(actions, n, m - 1);
        assert(actions.take(m) =~= actions.take(m - 1).push(actions[m - 1]));
        lemma_keys_down_step(actions.take(m - 1), actions[m - 1]);
    }
}

/// The V key is pressed while the modifier is held, Return is pressed alone and only to submit,
/// and a paste that runs to its end leaves no key down and the clipboard's text restored.
pub proof fn lemma_paste_leaves_no_trace(submit: bool)
    ensures
        keys_down(paste_script(submit)) == Set::<PasteKey>::empty(),
        keys_down(paste_script(submit).take(7)) == Set::<PasteKey>::empty().insert(
            PasteKey::Modifier,
        ).insert(PasteKey::V),
        submit ==> keys_down(paste_script(submit).take(11)) == Set::<PasteKey>::empty().insert(
            PasteKey::Return,
        ),
        submit <==> paste_script(submit).contains(PasteAction::Press { key: PasteKey::Return }),
        paste_script(submit).last() == PasteAction::RestoreClipboard,
{
    let script = paste_script(submit);
    assert(script.take(0) =~= Seq::<PasteAction>::empty());
    lemma_keys_down_later(script, 0, 5);
    assert(script.take(6) =~= script.take(5).push(script[5]));
    lemma_keys_down_step(script.take(5), script[5]);
    assert(script.take(7) =~= script.take(6).push(script[6]));
    lemma_keys_down_step(script.take(6), script[6]);
    assert(script.take(8) =~= script.take(7).push(script[7]));
    lemma_keys_down_step(script.take(7), script[7]);
    assert(script.take(9) =~= script.take(8).push(script[8]));
    lemma_keys_down_step(script.take(8), script[8]);
    assert(keys_down(script.take(9)) =~= Set::<PasteKey>::empty());
    if submit {
        lemma_keys_down_later(script, 9, 10);
        assert(script.take(11) =~= script.take(10).push(script[10]));
        lemma_keys_down_step(script.take(10), script[10]);
        assert(script.take(12) =~= script.take(11).push(script[11]));
        lemma_keys_down_step(script.take(11), script[11]);
        assert(keys_down(script.take(12)) =~= Set::<PasteKey>::empty());
        lemma_keys_down_later(script, 12, 14);
        assert(script.take(14) =~= script);
        assert(script[10] == PasteAction::Press { key: PasteKey::Return });
    } else {
        lemma_keys_down_later(script, 9, 11);
        assert(script.take(11) =~= script);
    }
}

/// What a paste acts on: the clipboard, the keyboard, and the field that the user types in.
#[verifier::ext_equal]
pub ghost struct Desk {
    pub clipboard_open: bool,
    pub clipboard: Seq<char>,
    /// What the clipboard held when it was saved.
    pub saved: Option<Seq<char>>,
    pub keyboard_open: bool,
    pub modifier_down: bool,
    pub v_down: bool,
    pub return_down: bool,
    /// What stands in the field.
    pub field: Seq<char>,
    /// What was sent with Return, one text after another.
    pub sent: Seq<Seq<char>>,
    /// How many milliseconds ago the clipboard was written, and the text was pasted or sent.
    pub since_write: nat,
    pub since_key: nat,
    /// Whether something was done too early: keys before the clipboard has settled, Return
    /// before the text has arrived, or the clipboard changed under a paste.
    pub hasty: bool,
    /// Whether something was used that was not open.
    pub blocked: bool,
}

/// A desk before anything was done.
pub open spec fn untouched(clipboard: Seq<char>) -> Desk {
    Desk {
        clipboard_open: false,
        clipboard,
        saved: None,
        keyboard_open: false,
        modifier_down: false,
        v_down: false,
        return_down: false,
        field: Seq::empty(),
        sent: Seq::empty(),
        since_write: 1000,
        since_key: 1000,
        hasty: false,
        blocked: false,
    }
}

/// What an action does to the desk. The clipboard takes 50 milliseconds to settle, a text 250 to
/// arrive, and what was pasted or sent 100 before the clipboard may change.
pub open spec fn acted(desk: Desk, action: PasteAction, transcript: Seq<char>, readable: bool) -> Desk {
    match action {
        PasteAction::OpenClipboard => Desk { clipboard_open: true, ..desk },
        PasteAction::SaveClipboard => Desk {
            saved: if readable {
                Some(desk.clipboard)
            } else {
                None
            },
            blocked: desk.blocked || !desk.clipboard_open,
            ..desk
        },
        PasteAction::WriteTranscript => Desk {
            clipboard: transcript,
            since_write: 0,
            hasty: desk.hasty || desk.since_key < 100,
            blocked: desk.blocked || !desk.clipboard_open,
            ..desk
        },
        PasteAction::RestoreClipboard => Desk {
            clipboard: match desk.saved {
                Some(text) => text,
                None => desk.clipboard,
            },
            since_write: 0,
            hasty: desk.hasty || desk.since_key < 100,
            blocked: desk.blocked || !desk.clipboard_open || desk.saved is None,
            ..desk
        },
        PasteAction::Wait { milliseconds } => Desk {
            since_write: desk.since_write + milliseconds as nat,
            since_key: desk.since_key + milliseconds as nat,
            ..desk
        },
        PasteAction::OpenKeyboard => Desk { keyboard_open: true, ..desk },
        PasteAction::Press { key: PasteKey::Modifier } => Desk {
            modifier_down: true,
            blocked: desk.blocked || !desk.keyboard_open,
            ..desk
        },
        PasteAction::Release { key: PasteKey::Modifier } => Desk {
            modifier_down: false,
            blocked: desk.blocked || !desk.keyboard_open,
            ..desk
        },
        PasteAction::Press { key: PasteKey::V } => Desk {
            v_down: true,
            // With the modifier held, V pastes; alone it is a letter.
            field: desk.field + if desk.modifier_down {
                desk.clipboard
            } else {
                seq!['v']
            },
            since_key: 0,
            hasty: desk.hasty || desk.since_write < 50,
            blocked: desk.blocked || !desk.keyboard_open || desk.v_down || desk.return_down,
            ..desk
        },
        PasteAction::Release { key: PasteKey::V } => Desk {
            v_down: false,
            blocked: desk.blocked || !desk.keyboard_open,
            ..desk
        },
        PasteAction::Press { key: PasteKey::Return } => Desk {
            return_down: true,
            sent: desk.sent.push(desk.field),
            since_key: 0,
            hasty: desk.hasty || desk.since_key < 250,
            blocked: desk.blocked || !desk.keyboard_open || desk.modifier_down || desk.v_down
                || desk.return_down,
            ..desk
        },
        PasteAction::Release { key: PasteKey::Return } => Desk {
            return_down: false,
            blocked: desk.blocked || !desk.keyboard_open,
            ..desk
        },
        PasteAction::Finished => desk,
    }
}

/// The desk after the first actions of a list.
pub open spec fn desk_after(
    desk: Desk,
    actions: Seq<PasteAction>,
    count: nat,
    transcript: Seq<char>,
    readable: bool,
) -> Desk
    decreases count,
{
    if count == 0 {
        desk
    } else {
        acted(
            desk_after(desk, actions, (count - 1) as nat, transcript, readable),
            actions[count - 1],
            transcript,
            readable,
        )
    }
}

/// Whether runs follow each other from a start to the end, with every action going well, but for
/// the clipboard, which can be read or not.
pub open spec fn runs_through(runs: Seq<PasteRun>, script: Seq<PasteAction>, readable: bool) -> bool {
    &&& runs.len() > 0
    &&& runs[0].script() == script && runs[0].position() == 0 && !runs[0].saved()
    &&& runs.last().action() == PasteAction::Finished
    &&& forall|i: int|
        0 <= i < runs.len() - 1 ==> (#[trigger] runs[i]).action() != PasteAction::Finished
            && goes_on(
            runs[i],
            runs[i].action() == PasteAction::SaveClipboard ==> readable,
            runs[i + 1],
        )
}

/// What is done along the way.
pub open spec fn actions_of(runs: Seq<PasteRun>) -> Seq<PasteAction> {
    Seq::new((runs.len() - 1) as nat, |i: int| runs[i].action())
}

proof fn lemma_run_follows_script(
    runs: Seq<PasteRun>,
    script: Seq<PasteAction>,
    readable: bool,
    i: int,
)
    requires
        runs_through(runs, script, readable),
        0 <= i < runs.len(),
    ensures
        runs[i].script() == script,
        runs[i].position() == i,
        i <= script.len(),
        runs[i].saved() ==> readable,
        (exists|k: int| 0 <= k < i && script[k] == PasteAction::SaveClipboard) && readable
            ==> runs[i].saved(),
        i < runs.len() - 1 ==> i < script.len() && runs[i].action() == script[i],
    decreases i,
{
    if i > 0 {
        lemma_run_follows_script(runs, script, readable, i - 1);
        assert(goes_on(
            runs[i - 1],
            runs[i - 1].action() == PasteAction::SaveClipboard ==> readable,
            runs[i],
        ));
    }
    if i < runs.len() - 1 {
        assert(runs[i].action() != PasteAction::Finished);
    }
}

proof fn lemma_run_does_its_script(runs: Seq<PasteRun>, script: Seq<PasteAction>, readable: bool)
    requires
        runs_through(runs, script, readable),
        script.len() > 2,
        script[1] == PasteAction::SaveClipboard,
        script.last() == PasteAction::RestoreClipboard,
        forall|i: int|
            0 <= i < script.len() - 1 ==> (#[trigger] script[i]) != PasteAction::RestoreClipboard
                && script[i] != PasteAction::Finished,
    ensures
        actions_of(runs) == if readable {
            script
        } else {
            script.drop_last()
        },
{
    let n = runs.len() - 1;
    lemma_run_follows_script(runs, script, readable, n);
    if readable && n >= 2 {
        assert(script[1] == PasteAction::SaveClipboard);
    }
    if n < script.len() - 1 {
        assert(script[n] != PasteAction::RestoreClipboard && script[n] != PasteAction::Finished);
    }
    if n == script.len() {
        lemma_run_follows_script(runs, script, readable, n - 1);
    }
    let actions = actions_of(runs);
    assert forall|i: int| 0 <= i < actions.len() implies actions[i] == script[i] by {
        lemma_run_follows_script(runs, script, readable, i);
    }
    if readable {
        assert(actions =~= script);
    } else {
        assert(actions =~= script.drop_last());
    }
}

proof fn lemma_script_shape(submit: bool)
    ensures
        paste_script(submit).len() == if submit {
            14int
        } else {
            11int
        },
        paste_script(submit)[1] == PasteAction::SaveClipboard,
        paste_script(submit).last() == PasteAction::RestoreClipboard,
        forall|i: int|
            0 <= i < paste_script(submit).len() - 1 ==> (#[trigger] paste_script(submit)[i])
                != PasteAction::RestoreClipboard && paste_script(submit)[i]
                != PasteAction::Finished,
{
}

proof fn lemma_shortcut_on_the_desk(
    submit: bool,
    actions: Seq<PasteAction>,
    transcript: Seq<char>,
    clipboard: Seq<char>,
    readable: bool,
)
    requires
        actions.len() >= 9,
        forall|i: int| 0 <= i < 9 ==> actions[i] == #[trigger] paste_script(submit)[i],
    ensures
        desk_after(untouched(clipboard), actions, 9, transcript, readable) == (Desk {
            clipboard_open: true,
            clipboard: transcript,
            saved: if readable {
                Some(clipboard)
            } else {
                None
            },
            keyboard_open: true,
            field: transcript,
            since_write: 50,
            since_key: 0,
            ..untouched(clipboard)
        }),
{
    let script = paste_script(submit);
    assert(script[0] == actions[0] && script[1] == actions[1] && script[2] == actions[2]);
    assert(script[3] == actions[3] && script[4] == actions[4] && script[5] == actions[5]);
    assert(script[6] == actions[6] && script[7] == actions[7] && script[8] == actions[8]);
    let d0 = untouched(clipboard);
    assert(desk_after(d0, actions, 0, transcript, readable) == d0);
    let d1 = acted(d0, PasteAction::OpenClipboard, transcript, readable);
    assert(desk_after(d0, actions, 1, transcript, readable) == d1);
    let d2 = acted(d1, PasteAction::SaveClipboard, transcript, readable);
    assert(desk_after(d0, actions, 2, transcript, readable) == d2);
    let d3 = acted(d2, PasteAction::WriteTranscript, transcript, readable);
    assert(desk_after(d0, actions, 3, transcript, readable) == d3);
    let d4 = acted(d3, PasteAction::Wait { milliseconds: 50 }, transcript, readable);
    assert(desk_after(d0, actions, 4, transcript, readable) == d4);
    let d5 = acted(d4, PasteAction::OpenKeyboard, transcript, readable);
    assert(desk_after(d0, actions, 5, transcript, readable) == d5);
    let d6 = acted(d5, PasteAction::Press { key: PasteKey::Modifier }, transcript, readable);
    assert(desk_after(d0, actions, 6, transcript, readable) == d6);
    let d7 = acted(d6, PasteAction::Press { key: PasteKey::V }, transcript, readable);
    assert(desk_after(d0, actions, 7, transcript, readable) == d7);
    let d8 = acted(d7, PasteAction::Release { key: PasteKey::V }, transcript, readable);
    assert(desk_after(d0, actions, 8, transcript, readable) == d8);
    let d9 = acted(d8, PasteAction::Release { key: PasteKey::Modifier }, transcript, readable);
    assert(desk_after(d0, actions, 9, transcript, readable) == d9);
    assert(d9.field =~= transcript);
}

proof fn lemma_script_on_the_desk(
    submit: bool,
    actions: Seq<PasteAction>,
    transcript: Seq<char>,
    clipboard: Seq<char>,
    readable: bool,
)
    requires
        actions == if readable {
            paste_script(submit)
        } else {
            paste_script(submit).drop_last()
        },
    ensures
        is_pasted(
            desk_after(untouched(clipboard), actions, actions.len(), transcript, readable),
            submit,
            transcript,
            clipboard,
            readable,
        ),
{
    let d0 = untouched(clipboard);
    lemma_shortcut_on_the_desk(submit, actions, transcript, clipboard, readable);
    let d9 = desk_after(d0, actions, 9, transcript, readable);
    if submit {
        let d10 = acted(d9, PasteAction::Wait { milliseconds: 250 }, transcript, readable);
        assert(desk_after(d0, actions, 10, transcript, readable) == d10);
        let d11 = acted(d10, PasteAction::Press { key: PasteKey::Return }, transcript, readable);
        assert(desk_after(d0, actions, 11, transcript, readable) == d11);
        let d12 = acted(d11, PasteAction::Release { key: PasteKey::Return }, transcript, readable);
        assert(desk_after(d0, actions, 12, transcript, readable) == d12);
        let d13 = acted(d12, PasteAction::Wait { milliseconds: 100 }, transcript, readable);
        assert(desk_after(d0, actions, 13, transcript, readable) == d13);
        assert(d13.sent =~= seq![transcript]);
        if readable {
            let d14 = acted(d13, PasteAction::RestoreClipboard, transcript, readable);
            assert(desk_after(d0, actions, 14, transcript, readable) == d14);
        }
    } else {
        let d10 = acted(d9, PasteAction::Wait { milliseconds: 100 }, transcript, readable);
        assert(desk_after(d0, actions, 10, transcript, readable) == d10);
        if readable {
            let d11 = acted(d10, PasteAction::RestoreClipboard, transcript, readable);
            assert(desk_after(d0, actions, 11, transcript, readable) == d11);
        }
    }
}

/// Whether a paste has ended as it should: the transcript stands in the field, it was sent once
/// where that was wanted and else nothing was, no key is left down, and the clipboard holds what
/// it held before, as far as that could be read.
pub open spec fn is_pasted(
    desk: Desk,
    submit: bool,
    transcript: Seq<char>,
    clipboard: Seq<char>,
    readable: bool,
) -> bool {
    &&& desk.field == transcript
    &&& desk.sent == if submit {
        seq![transcript]
    } else {
        Seq::empty()
    }
    &&& desk.clipboard == if readable {
        clipboard
    } else {
        transcript
    }
    &&& !desk.modifier_down && !desk.v_down && !desk.return_down
    &&& !desk.hasty && !desk.blocked
}

/// What a paste is for: whatever the clipboard held and whatever the transcript is, a paste that
/// runs to its end puts the transcript where the user types, sends it exactly where asked to,
/// and puts the clipboard's text back.
pub proof fn lemma_transcript_is_what_is_pasted(
    runs: Seq<PasteRun>,
    submit: bool,
    transcript: Seq<char>,
    clipboard: Seq<char>,
    readable: bool,
)
    requires
        runs_through(runs, paste_script(submit), readable),
    ensures
        is_pasted(
            desk_after(
                untouched(clipboard),
                actions_of(runs),
                actions_of(runs).len(),
                transcript,
                readable,
            ),
            submit,
            transcript,
            clipboard,
            readable,
        ),
{
    lemma_script_shape(submit);
    lemma_run_does_its_script(runs, paste_script(submit), readable);
    lemma_script_on_the_desk(submit, actions_of(runs), transcript, clipboard, readable);
}

/// What copying is for: the clipboard then holds the transcript, and no key was pressed.
pub proof fn lemma_copy_fills_the_clipboard(
    runs: Seq<PasteRun>,
    transcript: Seq<char>,
    clipboard: Seq<char>,
)
    requires
        runs_through(runs, copy_script(), true),
    ensures
        ({
            let end = desk_after(
                untouched(clipboard),
                actions_of(runs),
                actions_of(runs).len(),
                transcript,
                true,
            );
            &&& end.clipboard == transcript
            &&& end.field == Seq::<char>::empty()
            &&& end.sent == Seq::<Seq<char>>::empty()
            &&& !end.blocked
        }),
{
    let n = runs.len() - 1;
    lemma_run_follows_script(runs, copy_script(), true, n);
    assert(n == 2) by {
        if n < 2 {
            assert(runs[n].action() == copy_script()[n]);
        }
    }
    let actions = actions_of(runs);
    assert forall|i: int| 0 <= i < actions.len() implies actions[i] == copy_script()[i] by {
        lemma_run_follows_script(runs, copy_script(), true, i);
    }
    reveal_with_fuel(desk_after, 3);
}

/// The milliseconds that actions wait in all.
pub open spec fn waiting_time(actions: Seq<PasteAction>) -> nat
    decreases actions.len(),
{
    if actions.len() == 0 {
        0
    } else {
        waiting_time(actions.drop_last()) + match actions.last() {
            PasteAction::Wait { milliseconds } => milliseconds as nat,
            _ => 0nat,
        }
    }
}

proof fn lemma_waiting_adds_up(a: Seq<PasteAction>, b: Seq<PasteAction>)
    ensures
        waiting_time(a + b) == waiting_time(a) + waiting_time(b),
    decreases b.len(),
{
    if b.len() == 0 {
        assert(a + b =~= a);
    } else {
        assert((a + b).drop_last() =~= a + b.drop_last());
        assert((a + b).last() == b.last());
        lemma_waiting_adds_up(a, b.drop_last());
    }
}

proof fn lemma_waiting_step(actions: Seq<PasteAction>, n: int)
    requires
        0 <= n < actions.len(),
    ensures
        waiting_time(actions.take(n + 1)) == waiting_time(actions.take(n)) + match actions[n] {
            PasteAction::Wait { milliseconds } => milliseconds as nat,
            _ => 0nat,
        },
{
    assert(actions.take(n + 1).drop_last() =~= actions.take(n));
    assert(actions.take(n + 1).last() == actions[n]);
}

/// A paste waits no longer than it has to: for the clipboard to settle and for the paste to be
/// over, and, to send the text, for it to arrive.
pub proof fn lemma_paste_waits_no_longer_than_needed(submit: bool)
    ensures
        waiting_time(paste_script(submit)) == 50 + 100 + if submit {
            250int
        } else {
            0
        },
{
    let script = paste_script(submit);
    let middle = submit_script(submit);
    let end = seq![PasteAction::Wait { milliseconds: 100 }, PasteAction::RestoreClipboard];
    let front = script.take(9);
    assert(script =~= front + middle + end);
    lemma_waiting_adds_up(front + middle, end);
    lemma_waiting_adds_up(front, middle);
    assert(waiting_time(front.take(0)) == 0);
    lemma_waiting_step(front, 0);
    lemma_waiting_step(front, 1);
    lemma_waiting_step(front, 2);
    lemma_waiting_step(front, 3);
    lemma_waiting_step(front, 4);
    lemma_waiting_step(front, 5);
    lemma_waiting_step(front, 6);
    lemma_waiting_step(front, 7);
    lemma_waiting_step(front, 8);
    assert(front.take(9) =~= front);
    assert(waiting_time(front) == 50);
    reveal_with_fuel(waiting_time, 4);
    assert(end.drop_last() =~= seq![PasteAction::Wait { milliseconds: 100 }]);
    assert(end.drop_last().drop_last() =~= Seq::<PasteAction>::empty());
    assert(waiting_time(end) == 100);
    if submit {
        assert(middle.drop_last().drop_last() =~= seq![PasteAction::Wait { milliseconds: 250 }]);
        assert(middle.drop_last().drop_last().drop_last() =~= Seq::<PasteAction>::empty());
        assert(waiting_time(middle) == 250);
    }
}

/// What fails ends a paste, unless it was reading the clipboard or putting it back, which the
/// paste does without; waiting does not fail. An error says which action it was.
pub proof fn lemma_paste_failures_are_told_apart(a: PasteAction, b: PasteAction)
    ensures
        failure_text(a) is None <==> a == PasteAction::SaveClipboard || a
            == PasteAction::RestoreClipboard || a is Wait || a == PasteAction::Finished,
        failure_text(a) is Some && failure_text(b) is Some ==> (failure_text(a) == failure_text(b)
            <==> a == b),
{
    reveal_strlit("Failed to access clipboard: ");
    reveal_strlit("Failed to write transcript to clipboard: ");
    reveal_strlit("Failed to initialize input automation: ");
    reveal_strlit("Failed to press modifier key: ");
    reveal_strlit("Failed to press paste key: ");
    reveal_strlit("Failed to press Return key: ");
    reveal_strlit("Failed to release modifier key: ");
    reveal_strlit("Failed to release paste key: ");
    reveal_strlit("Failed to release Return key: ");
    assert("Failed to access clipboard: "@.len() == 28);
    assert("Failed to write transcript to clipboard: "@.len() == 41);
    assert("Failed to initialize input automation: "@.len() == 39);
    assert("Failed to press modifier key: "@.len() == 30);
    assert("Failed to press paste key: "@.len() == 27);
    assert("Failed to press Return key: "@.len() == 28);
    assert("Failed to release modifier key: "@.len() == 32);
    assert("Failed to release paste key: "@.len() == 29);
    assert("Failed to release Return key: "@.len() == 30);
    assert("Failed to access clipboard: "@[10] == 'a');
    assert("Failed to press Return key: "@[10] == 'p');
    assert("Failed to press modifier key: "@[10] == 'p');
    assert("Failed to release Return key: "@[10] == 'r');
}

} // verus!

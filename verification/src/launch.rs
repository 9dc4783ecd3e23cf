//! Starting the app when the user logs in: the launch agent's file, and the steps that install
//! or remove it.

use vstd::prelude::*;

use crate::error;
use crate::error::AppError;
use crate::platform;
use crate::platform::{Platform, APP_IDENTIFIER};
use crate::text;

verus! {

/// How a character is written in XML text.
pub open spec fn escaped_char(c: char) -> Seq<char> {
    if c == '&' {
        "&amp;"@
    } else if c == '<' {
        "&lt;"@
    } else if c == '>' {
        "&gt;"@
    } else if c == '"' {
        "&quot;"@
    } else if c == '\'' {
        "&apos;"@
    } else {
        seq![c]
    }
}

/// How a text is written in XML.
pub open spec fn escaped(s: Seq<char>) -> Seq<char>
    decreases s.len(),
{
    if s.len() == 0 {
        Seq::empty()
    } else {
        escaped(s.drop_last()) + escaped_char(s.last())
    }
}

/// The characters that have a meaning in XML, the ampersand left out.
pub open spec fn is_markup(c: char) -> bool {
    c == '<' || c == '>' || c == '"' || c == '\''
}

/// No character of an escaped text starts or ends markup.
pub proof fn lemma_escaped_has_no_markup(s: Seq<char>)
    ensures
        forall|i: int| 0 <= i < escaped(s).len() ==> !is_markup(#[trigger] escaped(s)[i]),
    decreases s.len(),
{
    if s.len() > 0 {
        lemma_escaped_has_no_markup(s.drop_last());
        reveal_strlit("&amp;");
        reveal_strlit("&lt;");
        reveal_strlit("&gt;");
        reveal_strlit("&quot;");
        reveal_strlit("&apos;");
        let head = escaped(s.drop_last());
        let tail = escaped_char(s.last());
        assert forall|i: int| 0 <= i < tail.len() implies !is_markup(#[trigger] tail[i]) by {
        }
        assert forall|i: int| 0 <= i < escaped(s).len() implies !is_markup(
            #[trigger] escaped(s)[i],
        ) by {
            if i < head.len() {
                assert(escaped(s)[i] == head[i]);
            } else {
                assert(escaped(s)[i] == tail[i - head.len()]);
            }
        }
    }
}

/// Writes a text for use in XML.
pub fn xml_escape(value: &str) -> (xml: String)
    ensures
        xml@ == escaped(value@),
{
    let chars = text::chars_of(value);
    let mut xml = String::new();
    let mut i: usize = 0;
    while i < chars.len()
        invariant
            i <= chars@.len(),
            xml@ == escaped(chars@.take(i as int)),
        decreases chars.len() - i,
    {
        let c = chars[i];
        assert(chars@.take(i + 1).drop_last() == chars@.take(i as int));
        if c == '&' {
            xml.append("&amp;");
        } else if c == '<' {
            xml.append("&lt;");
        } else if c == '>' {
            xml.append("&gt;");
        } else if c == '"' {
            xml.append("&quot;");
        } else if c == '\'' {
            xml.append("&apos;");
        } else {
            xml.push(c);
        }
        i += 1;
    }
    assert(chars@.take(i as int) == value@);
    xml
}

/// The launch agent's file up to the app's name.
pub const PLIST_START: &'static str =
    "<?xml version=\"1.0\" encoding=\"UTF-8\"?>\n<!DOCTYPE plist PUBLIC \"-//Apple//DTD PLIST 1.0//EN\" \"http://www.apple.com/DTDs/PropertyList-1.0.dtd\">\n<plist version=\"1.0\">\n<dict>\n    <key>Label</key>\n    <string>";

/// The launch agent's file between the app's name and the program.
pub const PLIST_MIDDLE: &'static str =
    "</string>\n    <key>ProgramArguments</key>\n    <array>\n        <string>";

/// The launch agent's file behind the program.
pub const PLIST_END: &'static str =
    "</string>\n    </array>\n    <key>RunAtLoad</key>\n    <true/>\n    <key>KeepAlive</key>\n    <false/>\n</dict>\n</plist>\n";

/// The launch agent's file for a program.
pub open spec fn plist(executable: Seq<char>) -> Seq<char> {
    PLIST_START@ + APP_IDENTIFIER@ + PLIST_MIDDLE@ + escaped(executable) + PLIST_END@
}

/// The contents of the launch agent's file, which has the program started at login.
pub fn launch_agent_plist_contents(executable: &str) -> (contents: String)
    ensures
        contents@ == plist(executable@),
{
    let mut contents = PLIST_START.to_string();
    contents.append(APP_IDENTIFIER);
    contents.append(PLIST_MIDDLE);
    contents.append(xml_escape(executable).as_str());
    contents.append(PLIST_END);
    contents
}

/// The next thing to do for starting at login, or for no longer doing so. `Finished` ends the
/// work; every other step is done outside, and its outcome decides what follows.
#[derive(Clone, Copy, Debug, PartialEq, Eq, Structural)]
pub enum LaunchStep {
    /// Create the directory of the launch agents.
    CreateDirectory,
    /// Find out which program is running.
    FindExecutable,
    /// Write the launch agent's file under a temporary name.
    WriteTemporary,
    /// Give the file its name.
    RenameTemporary,
    /// Have the system forget an earlier launch agent.
    UnloadOld,
    /// Have the system load the launch agent.
    Load,
    /// See whether the launch agent's file exists.
    CheckExists,
    /// Have the system forget the launch agent.
    UnloadCurrent,
    /// Remove the launch agent's file.
    RemovePlist,
    Finished,
}

/// How a step ended.
pub enum LaunchOutcome {
    Done,
    /// The step could not be carried out.
    Failed(String),
    /// The system's tool ran and reported this status.
    BadStatus(String),
    /// What was looked for is not there.
    Absent,
}

/// The step that the work starts with; none where it cannot be done.
pub open spec fn first_step(platform: Platform, enabled: bool) -> Option<LaunchStep> {
    if platform != Platform::MacOs {
        None
    } else if enabled {
        Some(LaunchStep::CreateDirectory)
    } else {
        Some(LaunchStep::CheckExists)
    }
}

/// The step that follows one that went well.
pub open spec fn step_after(step: LaunchStep) -> LaunchStep {
    match step {
        LaunchStep::CreateDirectory => LaunchStep::FindExecutable,
        LaunchStep::FindExecutable => LaunchStep::WriteTemporary,
        LaunchStep::WriteTemporary => LaunchStep::RenameTemporary,
        LaunchStep::RenameTemporary => LaunchStep::UnloadOld,
        LaunchStep::UnloadOld => LaunchStep::Load,
        LaunchStep::Load => LaunchStep::Finished,
        LaunchStep::CheckExists => LaunchStep::UnloadCurrent,
        LaunchStep::UnloadCurrent => LaunchStep::RemovePlist,
        LaunchStep::RemovePlist => LaunchStep::Finished,
        LaunchStep::Finished => LaunchStep::Finished,
    }
}

/// The step that follows, whatever came of one, where the work goes on. A launch agent's file
/// that was not seen counts as one that is not there: nothing is left to do.
pub open spec fn next_step(step: LaunchStep, outcome: LaunchOutcome) -> LaunchStep {
    if step == LaunchStep::CheckExists && !(outcome is Done) {
        LaunchStep::Finished
    } else {
        step_after(step)
    }
}

/// Whether the work goes on although a step failed.
pub open spec fn may_fail(step: LaunchStep) -> bool {
    step == LaunchStep::UnloadOld || step == LaunchStep::UnloadCurrent || step
        == LaunchStep::CheckExists || step == LaunchStep::Finished
}

/// Whether the work ends with an error.
pub open spec fn is_given_up(step: LaunchStep, outcome: LaunchOutcome) -> bool {
    match outcome {
        LaunchOutcome::Failed(_) => !may_fail(step),
        LaunchOutcome::BadStatus(_) => step == LaunchStep::Load,
        _ => false,
    }
}

/// Whether `error` is the error that the work ends with.
pub open spec fn is_failure_of(step: LaunchStep, outcome: LaunchOutcome, error: AppError) -> bool {
    match outcome {
        LaunchOutcome::Failed(why) => match step {
            LaunchStep::FindExecutable => error::says(
                error,
                "Failed to resolve current executable: "@ + why@,
            ),
            LaunchStep::Load => error::says(error, "Failed to run launchctl load: "@ + why@),
            _ => error::is_io(error, why@),
        },
        LaunchOutcome::BadStatus(status) => error::says(
            error,
            "launchctl load failed with status "@ + status@ + "."@,
        ),
        _ => false,
    }
}

/// Starts the work of having the app started at login, or no longer.
pub fn set_launch_at_login(platform: Platform, enabled: bool) -> (first: Result<LaunchStep, AppError>)
    ensures
        match first {
            Ok(step) => first_step(platform, enabled) == Some(step),
            Err(e) => first_step(platform, enabled) is None && error::says(
                e,
                "Launch at login is only implemented for macOS."@,
            ),
        },
{
    match platform {
        Platform::MacOs => {
            if enabled {
                Ok(LaunchStep::CreateDirectory)
            } else {
                Ok(LaunchStep::CheckExists)
            }
        },
        _ => Err(AppError::new("Launch at login is only implemented for macOS.")),
    }
}

fn step_on(step: LaunchStep) -> (next: LaunchStep)
    ensures
        next == step_after(step),
{
    match step {
        LaunchStep::CreateDirectory => LaunchStep::FindExecutable,
        LaunchStep::FindExecutable => LaunchStep::WriteTemporary,
        LaunchStep::WriteTemporary => LaunchStep::RenameTemporary,
        LaunchStep::RenameTemporary => LaunchStep::UnloadOld,
        LaunchStep::UnloadOld => LaunchStep::Load,
        LaunchStep::Load => LaunchStep::Finished,
        LaunchStep::CheckExists => LaunchStep::UnloadCurrent,
        LaunchStep::UnloadCurrent => LaunchStep::RemovePlist,
        LaunchStep::RemovePlist => LaunchStep::Finished,
        LaunchStep::Finished => LaunchStep::Finished,
    }
}

/// What to do once a step has ended in some way, or the error that ends the work.
pub fn after_launch_step(step: LaunchStep, outcome: LaunchOutcome) -> (next: Result<
    LaunchStep,
    AppError,
>)
    ensures
        match next {
            Ok(n) => !is_given_up(step, outcome) && n == next_step(step, outcome),
            Err(e) => is_given_up(step, outcome) && is_failure_of(step, outcome, e),
        },
{
    match outcome {
        LaunchOutcome::Done => Ok(step_on(step)),
        LaunchOutcome::Failed(why) => match step {
            LaunchStep::CreateDirectory => Err(AppError::Io(why)),
            LaunchStep::FindExecutable => Err(
                AppError::because("Failed to resolve current executable: ", why.as_str()),
            ),
            LaunchStep::WriteTemporary => Err(AppError::Io(why)),
            LaunchStep::RenameTemporary => Err(AppError::Io(why)),
            LaunchStep::Load => Err(
                AppError::because("Failed to run launchctl load: ", why.as_str()),
            ),
            LaunchStep::RemovePlist => Err(AppError::Io(why)),
            LaunchStep::CheckExists => Ok(LaunchStep::Finished),
            _ => Ok(step_on(step)),
        },
        LaunchOutcome::BadStatus(status) => match step {
            LaunchStep::Load => {
                let mut message = "launchctl load failed with status ".to_string();
                message.append(status.as_str());
                message.append(".");
                Err(AppError::Message(message))
            },
            LaunchStep::CheckExists => Ok(LaunchStep::Finished),
            _ => Ok(step_on(step)),
        },
        LaunchOutcome::Absent => match step {
            LaunchStep::CheckExists => Ok(LaunchStep::Finished),
            _ => Ok(step_on(step)),
        },
    }
}

/// How far the work has come.
pub open spec fn launch_rank(step: LaunchStep) -> int {
    match step {
        LaunchStep::CreateDirectory => 0,
        LaunchStep::FindExecutable => 1,
        LaunchStep::WriteTemporary => 2,
        LaunchStep::RenameTemporary => 3,
        LaunchStep::UnloadOld => 4,
        LaunchStep::Load => 5,
        LaunchStep::CheckExists => 3,
        LaunchStep::UnloadCurrent => 4,
        LaunchStep::RemovePlist => 5,
        LaunchStep::Finished => 6,
    }
}

/// The work comes to an end: every step leads further on. The launch agent is loaded only from a
/// file that was written in full under another name and then renamed.
pub proof fn lemma_launch_steps_lead_on(step: LaunchStep, outcome: LaunchOutcome)
    ensures
        step != LaunchStep::Finished ==> launch_rank(next_step(step, outcome)) > launch_rank(step),
        next_step(step, outcome) == LaunchStep::Load ==> step == LaunchStep::UnloadOld,
        next_step(step, outcome) == LaunchStep::UnloadOld ==> step == LaunchStep::RenameTemporary,
        next_step(step, outcome) == LaunchStep::RenameTemporary ==> step
            == LaunchStep::WriteTemporary,
{
}

/// The work on its way: the step that is to be taken, and whether the launch agent's file
/// exists.
pub ghost struct LaunchState {
    pub step: LaunchStep,
    pub plist_exists: bool,
}

/// Whether an outcome can come of a step: only the system's tool reports a status, only a look
/// finds something absent, and it finds the launch agent's file exactly where it exists.
pub open spec fn can_come_of(state: LaunchState, outcome: LaunchOutcome) -> bool {
    match state.step {
        LaunchStep::CheckExists => (outcome is Done) == state.plist_exists,
        LaunchStep::UnloadOld | LaunchStep::UnloadCurrent | LaunchStep::Load => !(outcome
            is Absent),
        _ => outcome is Done || outcome is Failed,
    }
}

/// Whether the launch agent's file exists once a step was taken: renaming the temporary file
/// makes it, and removing it ends it.
pub open spec fn exists_after(state: LaunchState, outcome: LaunchOutcome) -> bool {
    if outcome is Done && state.step == LaunchStep::RenameTemporary {
        true
    } else if outcome is Done && state.step == LaunchStep::RemovePlist {
        false
    } else {
        state.plist_exists
    }
}

/// The work once the given outcomes have come, one after another; none where it was given up, or
/// where the outcomes cannot come.
pub open spec fn launch_run(start: LaunchState, outcomes: Seq<LaunchOutcome>) -> Option<LaunchState>
    decreases outcomes.len(),
{
    if outcomes.len() == 0 {
        Some(start)
    } else {
        match launch_run(start, outcomes.drop_last()) {
            Some(state) => if can_come_of(state, outcomes.last()) && !is_given_up(
                state.step,
                outcomes.last(),
            ) {
                Some(
                    LaunchState {
                        step: next_step(state.step, outcomes.last()),
                        plist_exists: exists_after(state, outcomes.last()),
                    },
                )
            } else {
                None
            },
            None => None,
        }
    }
}

/// Whether a state belongs to the work of having the app started at login, or no longer: behind
/// the renaming the file exists, and at the end it exists exactly where it should.
spec fn is_on_the_way(state: LaunchState, enabled: bool) -> bool {
    match state.step {
        LaunchStep::CreateDirectory
        | LaunchStep::FindExecutable
        | LaunchStep::WriteTemporary
        | LaunchStep::RenameTemporary => enabled,
        LaunchStep::UnloadOld | LaunchStep::Load => enabled && state.plist_exists,
        LaunchStep::CheckExists | LaunchStep::UnloadCurrent | LaunchStep::RemovePlist => !enabled,
        LaunchStep::Finished => state.plist_exists == enabled,
    }
}

proof fn lemma_run_stays_on_the_way(
    start: LaunchState,
    outcomes: Seq<LaunchOutcome>,
    enabled: bool,
)
    requires
        is_on_the_way(start, enabled),
    ensures
        launch_run(start, outcomes) matches Some(state) ==> is_on_the_way(state, enabled),
    decreases outcomes.len(),
{
    if outcomes.len() > 0 {
        lemma_run_stays_on_the_way(start, outcomes.drop_last(), enabled);
    }
}

/// Once the work has finished without an error, the app starts at login exactly where it was
/// asked to, whether it did so before or not. Where the work cannot be done, it never does.
pub proof fn lemma_finished_change_is_reported(
    platform: Platform,
    enabled: bool,
    existed: bool,
    outcomes: Seq<LaunchOutcome>,
)
    ensures
        match first_step(platform, enabled) {
            Some(step) => launch_run(LaunchState { step, plist_exists: existed }, outcomes)
                matches Some(state) ==> state.step == LaunchStep::Finished ==> platform::starts_at_login(
                platform,
                Some(state.plist_exists),
            ) == enabled,
            None => forall|known: Option<bool>| !platform::starts_at_login(platform, known),
        },
{
    if let Some(step) = first_step(platform, enabled) {
        lemma_run_stays_on_the_way(LaunchState { step, plist_exists: existed }, outcomes, enabled);
    }
}

/// A text that is written in parts is written as a whole.
pub proof fn lemma_escaped_parts_add_up(a: Seq<char>, b: Seq<char>)
    ensures
        escaped(a + b) == escaped(a) + escaped(b),
    decreases b.len(),
{
    if b.len() == 0 {
        assert(a + b =~= a);
        assert(escaped(b) =~= Seq::<char>::empty());
        assert(escaped(a) + escaped(b) =~= escaped(a));
    } else {
        lemma_escaped_parts_add_up(a, b.drop_last());
        assert((a + b).drop_last() =~= a + b.drop_last());
        assert((a + b).last() == b.last());
        assert(escaped(a + b) =~= escaped(a) + escaped(b));
    }
}

/// The character that XML names by a word, such as `lt`.
pub open spec fn named_char(name: Seq<char>) -> Option<char> {
    if name == "amp"@ {
        Some('&')
    } else if name == "lt"@ {
        Some('<')
    } else if name == "gt"@ {
        Some('>')
    } else if name == "quot"@ {
        Some('"')
    } else if name == "apos"@ {
        Some('\'')
    } else {
        None
    }
}

/// The text that a reader of XML finds: a name between `&` and `;` stands for its character.
/// There is none where a name is not known or does not end.
pub open spec fn read_xml(xml: Seq<char>) -> Option<Seq<char>>
    decreases xml.len(),
{
    if xml.len() == 0 {
        Some(Seq::empty())
    } else if xml[0] != '&' {
        match read_xml(xml.skip(1)) {
            Some(rest) => Some(seq![xml[0]] + rest),
            None => None,
        }
    } else {
        let end = text::position_of(xml, ';') as int;
        if 0 < end < xml.len() {
            match (named_char(xml.subrange(1, end)), read_xml(xml.skip(end + 1))) {
                (Some(c), Some(rest)) => Some(seq![c] + rest),
                _ => None,
            }
        } else {
            None
        }
    }
}

proof fn lemma_named_char_is_read(name: Seq<char>, c: char, rest: Seq<char>)
    requires
        named_char(name) == Some(c),
        forall|i: int| 0 <= i < name.len() ==> name[i] != ';',
        read_xml(rest) is Some,
    ensures
        read_xml(seq!['&'] + name + seq![';'] + rest) == Some(seq![c] + read_xml(rest).unwrap()),
{
    let front = seq!['&'] + name;
    let xml = front + seq![';'] + rest;
    assert(xml =~= front + (seq![';'] + rest));
    assert forall|i: int| 0 <= i < front.len() implies front[i] != ';' by {
        if i > 0 {
            assert(front[i] == name[i - 1]);
        }
    }
    text::lemma_position_behind(front, ';', seq![';'] + rest);
    assert(text::position_of(seq![';'] + rest, ';') == 0);
    assert(xml.subrange(1, front.len() as int) =~= name);
    assert(xml.skip(front.len() as int + 1) =~= rest);
    assert(xml[0] == '&');
}

proof fn lemma_escaped_char_is_read(c: char, rest: Seq<char>)
    requires
        read_xml(rest) is Some,
    ensures
        read_xml(escaped_char(c) + rest) == Some(seq![c] + read_xml(rest).unwrap()),
{
    reveal_strlit("&amp;");
    reveal_strlit("&lt;");
    reveal_strlit("&gt;");
    reveal_strlit("&quot;");
    reveal_strlit("&apos;");
    reveal_strlit("amp");
    reveal_strlit("lt");
    reveal_strlit("gt");
    reveal_strlit("quot");
    reveal_strlit("apos");
    assert("quot"@[0] == 'q');
    assert("lt"@[0] == 'l' && "gt"@[0] == 'g');
    assert("apos"@[0] == 'a');
    if c == '&' {
        assert("&amp;"@ =~= seq!['&'] + "amp"@ + seq![';']);
        lemma_named_char_is_read("amp"@, c, rest);
    } else if c == '<' {
        assert("&lt;"@ =~= seq!['&'] + "lt"@ + seq![';']);
        assert("lt"@.len() != "amp"@.len());
        lemma_named_char_is_read("lt"@, c, rest);
    } else if c == '>' {
        assert("&gt;"@ =~= seq!['&'] + "gt"@ + seq![';']);
        assert("gt"@.len() != "amp"@.len());
        lemma_named_char_is_read("gt"@, c, rest);
    } else if c == '"' {
        assert("&quot;"@ =~= seq!['&'] + "quot"@ + seq![';']);
        assert("quot"@.len() != "amp"@.len() && "quot"@.len() != "lt"@.len());
        assert("quot"@.len() != "gt"@.len());
        lemma_named_char_is_read("quot"@, c, rest);
    } else if c == '\'' {
        assert("&apos;"@ =~= seq!['&'] + "apos"@ + seq![';']);
        assert("apos"@.len() != "amp"@.len() && "apos"@.len() != "lt"@.len());
        assert("apos"@.len() != "gt"@.len());
        lemma_named_char_is_read("apos"@, c, rest);
    } else {
        let xml = seq![c] + rest;
        assert(xml.skip(1) =~= rest);
        assert(xml[0] == c);
    }
}

/// A reader of XML finds the text that was written, whatever it holds.
pub proof fn lemma_escaped_text_is_read_back(s: Seq<char>)
    ensures
        read_xml(escaped(s)) == Some(s),
    decreases s.len(),
{
    if s.len() == 0 {
        assert(escaped(s) =~= Seq::<char>::empty());
        assert(s =~= Seq::<char>::empty());
    } else {
        let rest = s.skip(1);
        let first = seq![s[0]];
        lemma_escaped_text_is_read_back(rest);
        assert(s =~= first + rest);
        lemma_escaped_parts_add_up(first, rest);
        assert(first.drop_last() =~= Seq::<char>::empty());
        assert(escaped(Seq::<char>::empty()) =~= Seq::<char>::empty());
        assert(escaped(first) =~= escaped_char(s[0]));
        lemma_escaped_char_is_read(s[0], escaped(rest));
    }
}

/// The launch agent's file starts the program that it was made for: the part of it that differs
/// from one program to another is read back as the program, and nothing else differs.
pub proof fn lemma_launch_agent_starts_its_program(a: Seq<char>, b: Seq<char>)
    ensures
        ({
            let start = plist(a).len() - PLIST_END@.len() - escaped(a).len();
            let end = plist(a).len() - PLIST_END@.len();
            &&& 0 <= start <= end <= plist(a).len()
            &&& read_xml(plist(a).subrange(start, end)) == Some(a)
            &&& plist(b).take(start) == plist(a).take(start)
            &&& plist(b).skip(plist(b).len() - PLIST_END@.len()) == plist(a).skip(end)
        }),
        plist(a) == plist(b) ==> a == b,
{
    lemma_escaped_text_is_read_back(a);
    lemma_escaped_text_is_read_back(b);
    let front = PLIST_START@ + APP_IDENTIFIER@ + PLIST_MIDDLE@;
    let start = front.len() as int;
    let end = start + escaped(a).len();
    assert(plist(a).subrange(start, end) =~= escaped(a));
    assert(plist(a).take(start) =~= front);
    assert(plist(b).take(start) =~= front);
    assert(plist(a).skip(end) =~= PLIST_END@);
    assert(plist(b).skip(start + escaped(b).len()) =~= PLIST_END@);
    if plist(a) == plist(b) {
        assert(escaped(a).len() == escaped(b).len());
        assert(plist(b).subrange(start, end) =~= escaped(b));
    }
}

proof fn lemma_run_goes_on(start: LaunchState, outcomes: Seq<LaunchOutcome>, n: int)
    requires
        0 <= n < outcomes.len(),
    ensures
        launch_run(start, outcomes.take(n + 1)) == match launch_run(start, outcomes.take(n)) {
            Some(state) => if can_come_of(state, outcomes[n]) && !is_given_up(
                state.step,
                outcomes[n],
            ) {
                Some(
                    LaunchState {
                        step: next_step(state.step, outcomes[n]),
                        plist_exists: exists_after(state, outcomes[n]),
                    },
                )
            } else {
                None
            },
            None => None,
        },
{
    assert(outcomes.take(n + 1).drop_last() =~= outcomes.take(n));
    assert(outcomes.take(n + 1).last() == outcomes[n]);
}

/// Having the app started at login takes exactly six steps, of which all but the fifth have to
/// go well: what is forgotten of an earlier launch agent does not matter. The new one is loaded
/// last, when its file exists.
pub proof fn lemma_starting_at_login_needs_every_step(
    existed: bool,
    outcomes: Seq<LaunchOutcome>,
)
    requires
        outcomes.len() <= 6,
    ensures
        ({
            let start = LaunchState {
                step: first_step(Platform::MacOs, true).unwrap(),
                plist_exists: existed,
            };
            let finished = launch_run(start, outcomes) == Some(
                LaunchState { step: LaunchStep::Finished, plist_exists: true },
            );
            finished <==> outcomes.len() == 6 && outcomes[0] is Done && outcomes[1] is Done
                && outcomes[2] is Done && outcomes[3] is Done && !(outcomes[4] is Absent)
                && outcomes[5] is Done
        }),
{
    let start = LaunchState {
        step: first_step(Platform::MacOs, true).unwrap(),
        plist_exists: existed,
    };
    assert(outcomes.take(outcomes.len() as int) =~= outcomes);
    assert(launch_run(start, outcomes.take(0)) == Some(start));
    if outcomes.len() > 0 {
        lemma_run_goes_on(start, outcomes, 0);
    }
    if outcomes.len() > 1 {
        lemma_run_goes_on(start, outcomes, 1);
    }
    if outcomes.len() > 2 {
        lemma_run_goes_on(start, outcomes, 2);
    }
    if outcomes.len() > 3 {
        lemma_run_goes_on(start, outcomes, 3);
    }
    if outcomes.len() > 4 {
        lemma_run_goes_on(start, outcomes, 4);
    }
    if outcomes.len() > 5 {
        lemma_run_goes_on(start, outcomes, 5);
    }
}

/// No longer having the app started at login takes three steps where the launch agent's file
/// exists, of which the look and the removal have to go well, and one look where it does not.
pub proof fn lemma_not_starting_at_login_removes_the_file(
    existed: bool,
    outcomes: Seq<LaunchOutcome>,
)
    requires
        outcomes.len() <= 3,
    ensures
        ({
            let start = LaunchState {
                step: first_step(Platform::MacOs, false).unwrap(),
                plist_exists: existed,
            };
            let finished = launch_run(start, outcomes) == Some(
                LaunchState { step: LaunchStep::Finished, plist_exists: false },
            );
            &&& existed ==> (finished <==> outcomes.len() == 3 && outcomes[0] is Done && !(
            outcomes[1] is Absent) && outcomes[2] is Done)
            &&& !existed && outcomes.len() == 1 ==> (finished <==> !(outcomes[0] is Done))
        }),
{
    let start = LaunchState {
        step: first_step(Platform::MacOs, false).unwrap(),
        plist_exists: existed,
    };
    assert(outcomes.take(outcomes.len() as int) =~= outcomes);
    assert(launch_run(start, outcomes.take(0)) == Some(start));
    if outcomes.len() > 0 {
        lemma_run_goes_on(start, outcomes, 0);
    }
    if outcomes.len() > 1 {
        lemma_run_goes_on(start, outcomes, 1);
    }
    if outcomes.len() > 2 {
        lemma_run_goes_on(start, outcomes, 2);
    }
}

/// An error that ends the work tells the reason: what the step said, at the end, or the status
/// that the system's tool gave, before a full stop.
pub proof fn lemma_launch_failures_are_told(step: LaunchStep, outcome: LaunchOutcome, e: AppError)
    requires
        is_failure_of(step, outcome, e),
    ensures
        match outcome {
            LaunchOutcome::Failed(why) => why@.is_suffix_of(error::error_text(e)),
            LaunchOutcome::BadStatus(status) => (status@ + seq!['.']).is_suffix_of(
                error::error_text(e),
            ),
            _ => false,
        },
{
    let told = error::error_text(e);
    reveal_strlit(".");
    match outcome {
        LaunchOutcome::Failed(why) => {
            assert(told.skip(told.len() - why@.len()) =~= why@);
        },
        LaunchOutcome::BadStatus(status) => {
            let end = status@ + seq!['.'];
            assert(told.skip(told.len() - end.len()) =~= end);
        },
        _ => {},
    }
}

} // verus!

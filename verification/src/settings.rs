//! The user's settings, kept as lines of the form `key=value`.

use vstd::prelude::*;

use crate::platform::LANGUAGE;
use crate::text;

verus! {

/// The user's settings.
#[derive(Debug)]
pub struct Settings {
    /// Id of the chosen color of the idle icon; empty for the automatic one.
    pub icon_color: String,
    /// Code of the language that is transcribed, such as `cs`.
    pub language: String,
    /// Whether the popup bubble is never shown.
    pub hide_bubble: bool,
}

/// What settings say.
#[verifier::ext_equal]
pub ghost struct SettingsView {
    pub icon_color: Seq<char>,
    pub language: Seq<char>,
    pub hide_bubble: bool,
}

impl View for Settings {
    type V = SettingsView;

    open spec fn view(&self) -> SettingsView {
        SettingsView {
            icon_color: self.icon_color@,
            language: self.language@,
            hide_bubble: self.hide_bubble,
        }
    }
}

/// The settings of a user who has chosen nothing.
pub open spec fn default_settings() -> SettingsView {
    SettingsView { icon_color: Seq::empty(), language: LANGUAGE@, hide_bubble: false }
}

/// The settings once one line of the file is taken into account. A line without `=`, or with
/// another key, says nothing.
pub open spec fn apply_line(settings: SettingsView, line: Seq<char>) -> SettingsView {
    let at = text::position_of(line, '=') as int;
    if at >= line.len() {
        settings
    } else {
        let key = text::trim(line.take(at));
        let value = text::trim(line.skip(at + 1));
        if key == "icon_color"@ {
            SettingsView { icon_color: value, ..settings }
        } else if key == "language"@ {
            SettingsView { language: value, ..settings }
        } else if key == "hide_bubble"@ {
            SettingsView { hide_bubble: value == "true"@, ..settings }
        } else {
            settings
        }
    }
}

/// The settings once the lines of `content` are taken into account, one after the other.
pub open spec fn apply_lines(settings: SettingsView, content: Seq<char>) -> SettingsView
    decreases content.len(),
{
    if content.len() == 0 {
        settings
    } else {
        let end = text::position_of(content, '\n') as int;
        let after = apply_line(settings, content.take(end));
        if 0 <= end < content.len() {
            apply_lines(after, content.skip(end + 1))
        } else {
            after
        }
    }
}

/// The settings that a file holds; without a file, those of a user who has chosen nothing.
pub open spec fn loaded(content: Option<Seq<char>>) -> SettingsView {
    match content {
        Some(lines) => apply_lines(default_settings(), lines),
        None => default_settings(),
    }
}

/// How a truth value is written.
pub open spec fn bool_text(value: bool) -> Seq<char> {
    if value {
        "true"@
    } else {
        "false"@
    }
}

/// The file that holds the given settings.
pub open spec fn saved(settings: SettingsView) -> Seq<char> {
    "icon_color="@ + settings.icon_color + "\nlanguage="@ + settings.language + "\nhide_bubble="@
        + bool_text(settings.hide_bubble) + "\n"@
}

/// Whether a value can stand on a line of its own and be found again.
pub open spec fn is_plain(value: Seq<char>) -> bool {
    &&& text::trim(value) == value
    &&& forall|i: int| 0 <= i < value.len() ==> value[i] != '\n'
}

proof fn lemma_line_is_taken(settings: SettingsView, line: Seq<char>, rest: Seq<char>)
    requires
        forall|i: int| 0 <= i < line.len() ==> line[i] != '\n',
    ensures
        apply_lines(settings, line + seq!['\n'] + rest) == apply_lines(
            apply_line(settings, line),
            rest,
        ),
{
    let content = line + seq!['\n'] + rest;
    assert(content =~= line + (seq!['\n'] + rest));
    text::lemma_position_behind(line, '\n', seq!['\n'] + rest);
    assert(text::position_of(seq!['\n'] + rest, '\n') == 0);
    assert(content.take(line.len() as int) =~= line);
    assert(content.skip(line.len() as int + 1) =~= rest);
}

proof fn lemma_value_is_taken(key: Seq<char>, value: Seq<char>)
    requires
        forall|i: int| 0 <= i < key.len() ==> key[i] != '=',
    ensures
        text::position_of(key + seq!['='] + value, '=') == key.len(),
        (key + seq!['='] + value).take(key.len() as int) == key,
        (key + seq!['='] + value).skip(key.len() as int + 1) == value,
{
    let line = key + seq!['='] + value;
    assert(line =~= key + (seq!['='] + value));
    text::lemma_position_behind(key, '=', seq!['='] + value);
    assert(text::position_of(seq!['='] + value, '=') == 0);
    assert(line.take(key.len() as int) =~= key);
    assert(line.skip(key.len() as int + 1) =~= value);
}

proof fn lemma_key_is_plain(key: Seq<char>)
    requires
        key.len() > 0,
        !text::is_white(key[0]),
        !text::is_white(key.last()),
    ensures
        text::trim(key) == key,
{
}

/// A word is plain.
pub proof fn lemma_word_is_plain(word: Seq<char>)
    requires
        word.len() > 0,
        forall|i: int| 0 <= i < word.len() ==> !text::is_white(#[trigger] word[i]),
    ensures
        is_plain(word),
{
    lemma_key_is_plain(word);
}

/// Settings that were saved are loaded again as they were, as long as their texts have no line
/// breaks in them and no white characters around them.
pub proof fn lemma_saved_settings_are_loaded(settings: SettingsView)
    requires
        is_plain(settings.icon_color),
        is_plain(settings.language),
    ensures
        loaded(Some(saved(settings))) == settings,
{
    reveal_strlit("icon_color=");
    reveal_strlit("icon_color");
    reveal_strlit("\nlanguage=");
    reveal_strlit("language");
    reveal_strlit("\nhide_bubble=");
    reveal_strlit("hide_bubble");
    reveal_strlit("true");
    reveal_strlit("false");
    reveal_strlit("\n");
    let start = default_settings();
    let flag = bool_text(settings.hide_bubble);
    let line1 = "icon_color"@ + seq!['='] + settings.icon_color;
    let line2 = "language"@ + seq!['='] + settings.language;
    let line3 = "hide_bubble"@ + seq!['='] + flag;
    let none = Seq::<char>::empty();
    let rest2 = line3 + seq!['\n'] + none;
    let rest1 = line2 + seq!['\n'] + rest2;
    assert(saved(settings) =~= line1 + seq!['\n'] + rest1);
    lemma_line_is_taken(start, line1, rest1);
    let after1 = apply_line(start, line1);
    lemma_line_is_taken(after1, line2, rest2);
    let after2 = apply_line(after1, line2);
    lemma_line_is_taken(after2, line3, none);
    lemma_value_is_taken("icon_color"@, settings.icon_color);
    lemma_value_is_taken("language"@, settings.language);
    lemma_value_is_taken("hide_bubble"@, flag);
    lemma_key_is_plain("icon_color"@);
    lemma_key_is_plain("language"@);
    lemma_key_is_plain("hide_bubble"@);
    lemma_key_is_plain(flag);
    assert("language"@.len() != "icon_color"@.len());
    assert("hide_bubble"@.len() != "icon_color"@.len());
    assert("hide_bubble"@.len() != "language"@.len());
    assert("true"@.len() != "false"@.len());
    assert(after1 == SettingsView { icon_color: settings.icon_color, ..start });
    assert(after2 == SettingsView { language: settings.language, ..after1 });
    assert(apply_line(after2, line3) =~= settings);
}

proof fn lemma_trimmed_part_is_plain(line: Seq<char>, value: Seq<char>)
    requires
        forall|i: int| 0 <= i < line.len() ==> line[i] != '\n',
        forall|i: int| 0 <= i < value.len() ==> line.contains(#[trigger] value[i]),
    ensures
        is_plain(text::trim(value)),
{
    text::lemma_trim_is_done_once(value);
    text::lemma_trim_start_is_suffix(value);
    text::lemma_trim_end_is_prefix(text::trim_start(value));
    let inner = text::trim(value);
    let skipped = value.len() - text::trim_start(value).len();
    assert forall|i: int| 0 <= i < inner.len() implies inner[i] != '\n' by {
        assert(inner[i] == value[skipped + i]);
        assert(line.contains(value[skipped + i]));
    }
}

proof fn lemma_line_keeps_plain(settings: SettingsView, line: Seq<char>)
    requires
        forall|i: int| 0 <= i < line.len() ==> line[i] != '\n',
        is_plain(settings.icon_color),
        is_plain(settings.language),
    ensures
        is_plain(apply_line(settings, line).icon_color),
        is_plain(apply_line(settings, line).language),
{
    let at = text::position_of(line, '=') as int;
    if at < line.len() {
        let value = line.skip(at + 1);
        assert forall|i: int| 0 <= i < value.len() implies line.contains(#[trigger] value[i]) by {
            assert(line[at + 1 + i] == value[i]);
        }
        lemma_trimmed_part_is_plain(line, value);
    }
}

proof fn lemma_lines_keep_plain(settings: SettingsView, content: Seq<char>)
    requires
        is_plain(settings.icon_color),
        is_plain(settings.language),
    ensures
        is_plain(apply_lines(settings, content).icon_color),
        is_plain(apply_lines(settings, content).language),
    decreases content.len(),
{
    if content.len() > 0 {
        let end = text::position_of(content, '\n') as int;
        text::lemma_position_of(content, '\n');
        lemma_line_keeps_plain(settings, content.take(end));
        if end < content.len() {
            lemma_lines_keep_plain(
                apply_line(settings, content.take(end)),
                content.skip(end + 1),
            );
        }
    }
}

/// Whatever a file holds, the settings that it gives can be saved and loaded again as they are.
pub proof fn lemma_loaded_settings_are_plain(content: Option<Seq<char>>)
    ensures
        is_plain(loaded(content).icon_color),
        is_plain(loaded(content).language),
        loaded(Some(saved(loaded(content)))) == loaded(content),
{
    reveal_strlit("cs");
    assert(text::trim(Seq::<char>::empty()) =~= Seq::<char>::empty());
    lemma_key_is_plain(LANGUAGE@);
    if let Some(lines) = content {
        lemma_lines_keep_plain(default_settings(), lines);
    }
    lemma_saved_settings_are_loaded(loaded(content));
}

fn take_line(settings: &mut Settings, line: &[char])
    ensures
        final(settings)@ == apply_line(old(settings)@, line@),
{
    let at = text::find_char(line, '=');
    if at >= line.len() {
        return;
    }
    let key = text::trimmed(&line[0..at]);
    let value = text::trimmed(&line[at + 1..line.len()]);
    assert(line@.subrange(0, at as int) == line@.take(at as int));
    assert(line@.subrange(at + 1, line@.len() as int) == line@.skip(at + 1));
    if text::spells(key, "icon_color") {
        settings.icon_color = text::string_of(value);
    } else if text::spells(key, "language") {
        settings.language = text::string_of(value);
    } else if text::spells(key, "hide_bubble") {
        settings.hide_bubble = text::spells(value, "true");
    }
}

impl Settings {
    /// The settings that the file holds; none is given where it could not be read.
    pub fn load(content: Option<&str>) -> (settings: Settings)
        ensures
            settings@ == loaded(
                match content {
                    Some(lines) => Some(lines@),
                    None => None,
                },
            ),
    {
        let mut settings = Settings::default();
        let content = match content {
            Some(content) => content,
            None => {
                return settings;
            },
        };
        let chars = text::chars_of(content);
        let mut start: usize = 0;
        assert(chars@.skip(0) == chars@);
        while start < chars.len()
            invariant
                start <= chars@.len(),
                apply_lines(settings@, chars@.skip(start as int)) == apply_lines(
                    default_settings(),
                    chars@,
                ),
            decreases chars.len() - start,
        {
            let rest = &chars.as_slice()[start..chars.len()];
            assert(rest@ == chars@.skip(start as int));
            let end = text::find_char(rest, '\n');
            let line = &rest[0..end];
            assert(line@ == rest@.take(end as int));
            take_line(&mut settings, line);
            if end < rest.len() {
                assert(rest@.skip(end + 1) == chars@.skip(start + end + 1));
                start = start + end + 1;
            } else {
                assert(chars@.skip(chars@.len() as int).len() == 0);
                start = chars.len();
            }
        }
        settings
    }

    /// The file that holds these settings.
    pub fn save(&self) -> (content: String)
        ensures
            content@ == saved(self@),
    {
        let mut content = "icon_color=".to_string();
        content.append(self.icon_color.as_str());
        content.append("\nlanguage=");
        content.append(self.language.as_str());
        content.append("\nhide_bubble=");
        content.append(
            if self.hide_bubble {
                "true"
            } else {
                "false"
            },
        );
        content.append("\n");
        content
    }
}

impl Default for Settings {
    fn default() -> (settings: Settings)
        ensures
            settings@ == default_settings(),
    {
        Settings { icon_color: String::new(), language: LANGUAGE.to_string(), hide_bubble: false }
    }
}

/// A file is read line by line: what stands on a line counts before what follows it, so a later
/// line has the last word. An empty file says nothing.
pub proof fn lemma_settings_are_read_line_by_line(
    settings: SettingsView,
    line: Seq<char>,
    rest: Seq<char>,
)
    requires
        forall|i: int| 0 <= i < line.len() ==> line[i] != '\n',
    ensures
        apply_lines(settings, line + seq!['\n'] + rest) == apply_lines(
            apply_lines(settings, line),
            rest,
        ),
        apply_lines(settings, line) == apply_line(settings, line),
        apply_lines(settings, Seq::empty()) == settings,
{
    lemma_line_is_taken(settings, line, rest);
    text::lemma_position_behind(line, '\n', Seq::empty());
    assert(line + Seq::<char>::empty() =~= line);
    assert(text::position_of(Seq::<char>::empty(), '\n') == 0);
    assert(line.take(line.len() as int) =~= line);
    if line.len() == 0 {
        assert(text::position_of(line, '=') == 0);
    }
}

/// A line sets what its key names to what stands behind the first `=`, white characters around
/// the two left out, and sets nothing else. Other keys say nothing.
pub proof fn lemma_line_sets_its_value(
    settings: SettingsView,
    key: Seq<char>,
    value: Seq<char>,
    around: (Seq<char>, Seq<char>, Seq<char>, Seq<char>),
)
    requires
        forall|i: int| 0 <= i < key.len() ==> key[i] != '=',
        key.len() > 0 ==> !text::is_white(key[0]) && !text::is_white(key.last()),
        value.len() > 0 ==> !text::is_white(value[0]) && !text::is_white(value.last()),
        text::is_all_white(around.0),
        text::is_all_white(around.1),
        text::is_all_white(around.2),
        text::is_all_white(around.3),
    ensures
        ({
            let line = (around.0 + key + around.1) + seq!['='] + (around.2 + value + around.3);
            let after = apply_line(settings, line);
            &&& after.icon_color == if key == "icon_color"@ {
                value
            } else {
                settings.icon_color
            }
            &&& after.language == if key == "language"@ {
                value
            } else {
                settings.language
            }
            &&& after.hide_bubble == if key == "hide_bubble"@ {
                value == "true"@
            } else {
                settings.hide_bubble
            }
        }),
{
    let left = around.0 + key + around.1;
    let right = around.2 + value + around.3;
    assert forall|i: int| 0 <= i < left.len() implies left[i] != '=' by {
        if i < around.0.len() {
            assert(left[i] == around.0[i]);
            assert(text::is_white(around.0[i]));
        } else if i < around.0.len() + key.len() {
            assert(left[i] == key[i - around.0.len()]);
        } else {
            assert(left[i] == around.1[i - around.0.len() - key.len()]);
            assert(text::is_white(around.1[i - around.0.len() - key.len()]));
        }
    }
    lemma_value_is_taken(left, right);
    text::lemma_trim_finds_the_middle(around.0, key, around.1);
    text::lemma_trim_finds_the_middle(around.2, value, around.3);
    reveal_strlit("icon_color");
    reveal_strlit("language");
    reveal_strlit("hide_bubble");
    assert("language"@.len() != "icon_color"@.len());
    assert("hide_bubble"@.len() != "icon_color"@.len());
    assert("hide_bubble"@.len() != "language"@.len());
}

/// A line without `=` says nothing.
pub proof fn lemma_line_without_a_value_says_nothing(settings: SettingsView, line: Seq<char>)
    requires
        forall|i: int| 0 <= i < line.len() ==> line[i] != '=',
    ensures
        apply_line(settings, line) == settings,
{
    text::lemma_position_behind(line, '=', Seq::empty());
    assert(line + Seq::<char>::empty() =~= line);
}

} // verus!

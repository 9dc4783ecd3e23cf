//! Text as sequences of characters: trimming, collapsing whitespace, shortening,
//! decimal numbers, and the menu texts that are made of them.

use vstd::prelude::*;

verus! {

/// The characters with Unicode's `White_Space` property.
pub open spec fn is_white(c: char) -> bool {
    ||| '\u{9}' <= c <= '\u{d}'
    ||| c == '\u{20}'
    ||| c == '\u{85}'
    ||| c == '\u{a0}'
    ||| c == '\u{1680}'
    ||| '\u{2000}' <= c <= '\u{200a}'
    ||| c == '\u{2028}'
    ||| c == '\u{2029}'
    ||| c == '\u{202f}'
    ||| c == '\u{205f}'
    ||| c == '\u{3000}'
}

/// `char::is_whitespace` tests for the `White_Space` property, which [`is_white`] lists.
pub assume_specification[ char::is_whitespace ](c: char) -> (white: bool)
    ensures
        white == is_white(c),
;

/// `String::push` appends one character.
pub assume_specification[ String::push ](s: &mut String, c: char)
    ensures
        final(s)@ == old(s)@.push(c),
;

/// The characters of a string.
pub fn chars_of(s: &str) -> (chars: Vec<char>)
    ensures
        chars@ == s@,
{
    let mut chars: Vec<char> = Vec::new();
    for c in it: s.chars()
        invariant
            chars@ == s@.take(it.index() as int),
            it.seq() == s@,
    {
        chars.push(c);
    }
    chars
}

/// The string of the given characters.
pub fn string_of(chars: &[char]) -> (s: String)
    ensures
        s@ == chars@,
{
    let mut s = String::new();
    let mut i: usize = 0;
    while i < chars.len()
        invariant
            i <= chars.len(),
            s@ == chars@.take(i as int),
        decreases chars.len() - i,
    {
        s.push(chars[i]);
        i += 1;
    }
    s
}

/// `s` without the white characters that it starts with.
pub open spec fn trim_start(s: Seq<char>) -> Seq<char>
    decreases s.len(),
{
    if s.len() > 0 && is_white(s[0]) {
        trim_start(s.drop_first())
    } else {
        s
    }
}

/// `s` without the white characters that it ends with.
pub open spec fn trim_end(s: Seq<char>) -> Seq<char>
    decreases s.len(),
{
    if s.len() > 0 && is_white(s.last()) {
        trim_end(s.drop_last())
    } else {
        s
    }
}

/// `s` without the white characters around it.
pub open spec fn trim(s: Seq<char>) -> Seq<char> {
    trim_end(trim_start(s))
}

/// Trimming at the end cuts a text off behind a character that is not white.
pub proof fn lemma_trim_end_is_prefix(s: Seq<char>)
    ensures
        trim_end(s).len() <= s.len(),
        trim_end(s) == s.take(trim_end(s).len() as int),
        trim_end(s).len() > 0 ==> !is_white(trim_end(s).last()),
    decreases s.len(),
{
    if s.len() > 0 && is_white(s.last()) {
        lemma_trim_end_is_prefix(s.drop_last());
        let n = trim_end(s).len() as int;
        assert(s.drop_last().take(n) == s.take(n));
    } else {
        assert(s.take(s.len() as int) == s);
    }
}

/// Trimming at the start leaves a text that starts with a character that is not white.
pub proof fn lemma_trim_start_is_suffix(s: Seq<char>)
    ensures
        trim_start(s).len() <= s.len(),
        trim_start(s) == s.skip(s.len() - trim_start(s).len()),
        trim_start(s).len() > 0 ==> !is_white(trim_start(s)[0]),
    decreases s.len(),
{
    if s.len() > 0 && is_white(s[0]) {
        lemma_trim_start_is_suffix(s.drop_first());
        let n = trim_start(s).len() as int;
        assert(s.drop_first().skip(s.len() - 1 - n) == s.skip(s.len() - n));
    } else {
        assert(s.skip(0) == s);
    }
}

/// A trimmed text has no white characters around it, and trimming it again changes nothing.
pub proof fn lemma_trim_is_done_once(s: Seq<char>)
    ensures
        trim(s).len() > 0 ==> !is_white(trim(s)[0]) && !is_white(trim(s).last()),
        trim(trim(s)) == trim(s),
{
    lemma_trim_start_is_suffix(s);
    lemma_trim_end_is_prefix(trim_start(s));
    if trim(s).len() > 0 {
        assert(trim(s)[0] == trim_start(s)[0]);
    }
}

/// Where the first character of `chars` stands that is not white.
pub fn start_of_text(chars: &[char]) -> (start: usize)
    ensures
        start <= chars@.len(),
        chars@.skip(start as int) == trim_start(chars@),
        forall|i: int| 0 <= i < start ==> is_white(#[trigger] chars@[i]),
{
    let mut start: usize = 0;
    assert(chars@.skip(0) == chars@);
    while start < chars.len() && chars[start].is_whitespace()
        invariant
            start <= chars@.len(),
            trim_start(chars@.skip(start as int)) == trim_start(chars@),
            forall|i: int| 0 <= i < start ==> is_white(#[trigger] chars@[i]),
        decreases chars.len() - start,
    {
        assert(chars@.skip(start as int).drop_first() == chars@.skip(start + 1));
        start += 1;
    }
    start
}

/// Where the white characters start that `chars` ends with.
pub fn end_of_text(chars: &[char]) -> (end: usize)
    ensures
        end <= chars@.len(),
        chars@.take(end as int) == trim_end(chars@),
        forall|i: int| end <= i < chars@.len() ==> is_white(#[trigger] chars@[i]),
{
    let mut end: usize = chars.len();
    assert(chars@.take(end as int) == chars@);
    while end > 0 && chars[end - 1].is_whitespace()
        invariant
            end <= chars@.len(),
            trim_end(chars@.take(end as int)) == trim_end(chars@),
            forall|i: int| end <= i < chars@.len() ==> is_white(#[trigger] chars@[i]),
        decreases end,
    {
        assert(chars@.take(end as int).drop_last() == chars@.take(end - 1));
        end -= 1;
    }
    end
}

/// The slice of `chars` without the white characters around it.
pub fn trimmed(chars: &[char]) -> (inner: &[char])
    ensures
        inner@ == trim(chars@),
{
    let start = start_of_text(chars);
    let rest = &chars[start..chars.len()];
    assert(rest@ == chars@.skip(start as int));
    let end = end_of_text(rest);
    let inner = &rest[0..end];
    assert(inner@ == rest@.take(end as int));
    inner
}

/// Whether a text holds nothing but white characters.
pub fn is_blank(text: &str) -> (blank: bool)
    ensures
        blank == (trim(text@).len() == 0),
{
    let chars = chars_of(text);
    trimmed(chars.as_slice()).len() == 0
}

/// Whether a slice of characters spells `text`.
pub fn spells(chars: &[char], text: &str) -> (same: bool)
    ensures
        same == (chars@ == text@),
{
    let other = chars_of(text);
    if chars.len() != other.len() {
        return false;
    }
    let mut i: usize = 0;
    while i < chars.len()
        invariant
            i <= chars@.len() == other@.len(),
            other@ == text@,
            forall|k: int| 0 <= k < i ==> chars@[k] == other@[k],
        decreases chars.len() - i,
    {
        if chars[i] != other[i] {
            assert(chars@[i as int] != text@[i as int]);
            return false;
        }
        i += 1;
    }
    assert(chars@ =~= text@);
    true
}

/// How many characters of `s` stand before the first `c`; all of them where there is none.
pub open spec fn position_of(s: Seq<char>, c: char) -> nat
    decreases s.len(),
{
    if s.len() == 0 || s[0] == c {
        0
    } else {
        1 + position_of(s.drop_first(), c)
    }
}

/// Before the first `c` there is no `c`, and at its position there is one.
pub proof fn lemma_position_of(s: Seq<char>, c: char)
    ensures
        position_of(s, c) <= s.len(),
        position_of(s, c) < s.len() ==> s[position_of(s, c) as int] == c,
        forall|i: int| 0 <= i < position_of(s, c) ==> s[i] != c,
    decreases s.len(),
{
    if s.len() > 0 && s[0] != c {
        lemma_position_of(s.drop_first(), c);
        let rest = s.drop_first();
        assert forall|i: int| 0 <= i < position_of(s, c) implies s[i] != c by {
            if i > 0 {
                assert(rest[i - 1] != c);
            }
        }
    }
}

/// Behind characters that are not `c`, the first `c` is the one that comes next.
pub proof fn lemma_position_behind(s: Seq<char>, c: char, rest: Seq<char>)
    requires
        forall|i: int| 0 <= i < s.len() ==> s[i] != c,
    ensures
        position_of(s + rest, c) == s.len() + position_of(rest, c),
    decreases s.len(),
{
    if s.len() == 0 {
        assert(s + rest =~= rest);
    } else {
        lemma_position_behind(s.drop_first(), c, rest);
        assert((s + rest).drop_first() =~= s.drop_first() + rest);
    }
}

/// How many characters stand before the first `c`.
pub fn find_char(chars: &[char], c: char) -> (position: usize)
    ensures
        position == position_of(chars@, c),
        position <= chars@.len(),
{
    let mut position: usize = 0;
    assert(chars@.skip(0) == chars@);
    while position < chars.len() && chars[position] != c
        invariant
            position <= chars@.len(),
            position + position_of(chars@.skip(position as int), c) == position_of(chars@, c),
        decreases chars.len() - position,
    {
        assert(chars@.skip(position as int).drop_first() == chars@.skip(position + 1));
        position += 1;
    }
    position
}

/// The maximal runs of characters in `s` that are not white.
pub open spec fn words(s: Seq<char>) -> Seq<Seq<char>>
    decreases s.len(),
{
    if s.len() == 0 {
        Seq::empty()
    } else {
        let before = s.drop_last();
        let earlier = words(before);
        if is_white(s.last()) {
            earlier
        } else if before.len() > 0 && !is_white(before.last()) {
            earlier.drop_last().push(earlier.last().push(s.last()))
        } else {
            earlier.push(seq![s.last()])
        }
    }
}

/// The given words with one space between each two of them.
pub open spec fn joined(parts: Seq<Seq<char>>) -> Seq<char>
    decreases parts.len(),
{
    if parts.len() == 0 {
        Seq::empty()
    } else if parts.len() == 1 {
        parts[0]
    } else {
        joined(parts.drop_last()).push(' ') + parts.last()
    }
}

/// The words of `s` on one line.
pub open spec fn one_line(s: Seq<char>) -> Seq<char> {
    joined(words(s))
}

proof fn lemma_last_word(s: Seq<char>)
    requires
        s.len() > 0,
        !is_white(s.last()),
    ensures
        words(s).len() > 0,
    decreases s.len(),
{
}

proof fn lemma_joined_grows(parts: Seq<Seq<char>>, c: char)
    requires
        parts.len() > 0,
    ensures
        joined(parts.drop_last().push(parts.last().push(c))) == joined(parts).push(c),
{
    let longer = parts.drop_last().push(parts.last().push(c));
    assert(longer.drop_last() == parts.drop_last());
    assert(longer.last() == parts.last().push(c));
    assert(joined(longer) =~= joined(parts).push(c));
}

proof fn lemma_joined_starts(parts: Seq<Seq<char>>, c: char)
    ensures
        joined(parts.push(seq![c])) == if parts.len() == 0 {
            seq![c]
        } else {
            joined(parts).push(' ').push(c)
        },
{
    assert(parts.push(seq![c]).drop_last() == parts);
    assert(joined(parts).push(' ') + seq![c] =~= joined(parts).push(' ').push(c));
}

/// No word is empty, so a line without characters is one without words.
pub proof fn lemma_joined_is_empty(s: Seq<char>)
    ensures
        one_line(s).len() == 0 <==> words(s).len() == 0,
        forall|i: int| 0 <= i < words(s).len() ==> (#[trigger] words(s)[i]).len() > 0,
    decreases s.len(),
{
    if s.len() > 0 {
        lemma_joined_is_empty(s.drop_last());
        let before = s.drop_last();
        if !is_white(s.last()) && before.len() > 0 && !is_white(before.last()) {
            lemma_last_word(before);
        }
    }
    if words(s).len() > 0 {
        assert(words(s).last().len() > 0);
    }
}

/// The words of a text stand on one line: of the white characters only spaces are left, and no
/// line starts with one.
pub proof fn lemma_one_line_is_one_line(s: Seq<char>)
    ensures
        forall|i: int|
            0 <= i < one_line(s).len() && is_white(#[trigger] one_line(s)[i]) ==> one_line(s)[i]
                == ' ',
        one_line(s).len() > 0 ==> !is_white(one_line(s)[0]),
    decreases s.len(),
{
    if s.len() > 0 {
        let before = s.drop_last();
        lemma_one_line_is_one_line(before);
        lemma_joined_is_empty(before);
        if !is_white(s.last()) {
            if before.len() > 0 && !is_white(before.last()) {
                lemma_last_word(before);
                lemma_joined_grows(words(before), s.last());
            } else {
                lemma_joined_starts(words(before), s.last());
            }
        }
    }
}

/// The words of a text, with one space between each two of them.
pub fn on_one_line(text: &str) -> (line: Vec<char>)
    ensures
        line@ == one_line(text@),
{
    let chars = chars_of(text);
    let mut line: Vec<char> = Vec::new();
    let mut in_word = false;
    let mut i: usize = 0;
    while i < chars.len()
        invariant
            i <= chars@.len(),
            line@ == one_line(chars@.take(i as int)),
            in_word == (i > 0 && !is_white(chars@[i - 1])),
        decreases chars.len() - i,
    {
        let c = chars[i];
        let ghost before = chars@.take(i as int);
        let ghost after = chars@.take(i + 1);
        assert(after.drop_last() == before);
        assert(after.last() == c);
        proof {
            lemma_joined_is_empty(before);
            if in_word {
                assert(before.last() == chars@[i - 1]);
                lemma_last_word(before);
                lemma_joined_grows(words(before), c);
            } else {
                lemma_joined_starts(words(before), c);
            }
        }
        if c.is_whitespace() {
            in_word = false;
        } else {
            if !in_word && line.len() > 0 {
                line.push(' ');
            }
            line.push(c);
            in_word = true;
        }
        i += 1;
    }
    assert(chars@.take(i as int) == text@);
    line
}

/// At most the first `limit` characters of `s`, with three dots behind them where more follow.
pub open spec fn shortened(s: Seq<char>, limit: nat) -> Seq<char> {
    if s.len() > limit {
        s.take(limit as int) + "..."@
    } else {
        s
    }
}

/// At most the first `limit` characters, with three dots behind them where more follow.
pub fn shorten(chars: &[char], limit: usize) -> (short: String)
    ensures
        short@ == shortened(chars@, limit as nat),
{
    if chars.len() > limit {
        let head = &chars[0..limit];
        assert(head@ == chars@.take(limit as int));
        let mut short = string_of(head);
        short.append("...");
        short
    } else {
        string_of(chars)
    }
}

/// The preview of a transcript.
pub open spec fn preview_text_of(text: Seq<char>) -> Seq<char> {
    if trim(text).len() == 0 {
        "Transcript was empty."@
    } else {
        "Last transcript: "@ + shortened(trim(text), 60)
    }
}

/// One line that shows how a transcript starts.
pub fn preview_text(text: &str) -> (preview: String)
    ensures
        preview@ == preview_text_of(text@),
{
    let chars = chars_of(text);
    let inner = trimmed(chars.as_slice());
    if inner.len() == 0 {
        return "Transcript was empty.".to_string();
    }
    let mut preview = "Last transcript: ".to_string();
    preview.append(shorten(inner, 60).as_str());
    preview
}

/// The text of the status item.
pub open spec fn status_menu_text_of(status: Seq<char>) -> Seq<char> {
    "Status: "@ + shortened(one_line(status), 80)
}

/// The text of the menu item that shows the status.
pub fn status_menu_text(status: &str) -> (text: String)
    ensures
        text@ == status_menu_text_of(status@),
{
    let line = on_one_line(status);
    let mut text = "Status: ".to_string();
    text.append(shorten(line.as_slice(), 80).as_str());
    text
}

/// The text of the item that copies the last transcript.
pub open spec fn copy_last_transcript_menu_text_of(transcript: Seq<char>) -> Seq<char> {
    if words(transcript).len() == 0 {
        "Zkopírovat poslední přepis: —"@
    } else {
        "Zkopírovat poslední přepis: "@ + one_line(transcript)
    }
}

/// The text of the menu item that copies the last transcript.
pub fn copy_last_transcript_menu_text(transcript: &str) -> (text: String)
    ensures
        text@ == copy_last_transcript_menu_text_of(transcript@),
{
    let line = on_one_line(transcript);
    proof {
        lemma_joined_is_empty(transcript@);
    }
    if line.len() == 0 {
        return "Zkopírovat poslední přepis: —".to_string();
    }
    let mut text = "Zkopírovat poslední přepis: ".to_string();
    text.append(string_of(line.as_slice()).as_str());
    text
}

/// The digit for a number below ten.
pub open spec fn digit(d: nat) -> char {
    (48 + d) as char
}

/// A number in decimal notation, without leading zeros.
pub open spec fn decimal(n: nat) -> Seq<char>
    decreases n,
{
    if n < 10 {
        seq![digit(n)]
    } else {
        decimal(n / 10).push(digit(n % 10))
    }
}

/// Writes a number in decimal notation.
pub fn write_decimal(n: u128) -> (text: String)
    ensures
        text@ == decimal(n as nat),
    decreases n,
{
    let last: u8 = (n % 10) as u8;
    let c = (48u8 + last) as char;
    if n < 10 {
        let mut text = String::new();
        text.push(c);
        assert(text@ =~= decimal(n as nat));
        text
    } else {
        let mut text = write_decimal(n / 10);
        text.push(c);
        text
    }
}

/// A decimal number that fits in 64 bits.
pub open spec fn number_of(digits: Seq<char>) -> nat
    decreases digits.len(),
{
    if digits.len() == 0 {
        0
    } else {
        number_of(digits.drop_last()) * 10 + (digits.last() as nat - 48) as nat
    }
}

/// Whether a text is an optional plus sign and at least one digit, of a value that fits in
/// 64 bits.
pub open spec fn is_number(s: Seq<char>) -> bool {
    let digits = unsigned_part(s);
    &&& digits.len() > 0
    &&& forall|i: int| 0 <= i < digits.len() ==> '0' <= #[trigger] digits[i] <= '9'
    &&& number_of(digits) <= u64::MAX
}

/// `s` without a plus sign in front.
pub open spec fn unsigned_part(s: Seq<char>) -> Seq<char> {
    if s.len() > 0 && s[0] == '+' {
        s.drop_first()
    } else {
        s
    }
}

proof fn lemma_number_of_is_monotonic(digits: Seq<char>, n: int)
    requires
        0 <= n <= digits.len(),
    ensures
        number_of(digits.take(n)) <= number_of(digits),
    decreases digits.len(),
{
    if n == digits.len() {
        assert(digits.take(n) == digits);
    } else {
        lemma_number_of_is_monotonic(digits.drop_last(), n);
        assert(digits.drop_last().take(n) == digits.take(n));
    }
}

/// Reads a decimal number of at most 64 bits, with an optional plus sign in front.
pub fn parse_number(text: &str) -> (number: Option<u64>)
    ensures
        number is Some <==> is_number(text@),
        number matches Some(n) ==> n == number_of(unsigned_part(text@)),
{
    let chars = chars_of(text);
    let start: usize = if chars.len() > 0 && chars[0] == '+' {
        1
    } else {
        0
    };
    let digits = &chars.as_slice()[start..chars.len()];
    assert(digits@ == unsigned_part(text@));
    if digits.len() == 0 {
        return None;
    }
    let mut n: u64 = 0;
    let mut i: usize = 0;
    while i < digits.len()
        invariant
            i <= digits@.len(),
            digits@ == unsigned_part(text@),
            forall|k: int| 0 <= k < i ==> '0' <= #[trigger] digits@[k] <= '9',
            n == number_of(digits@.take(i as int)),
        decreases digits.len() - i,
    {
        let c = digits[i];
        proof {
            lemma_number_of_is_monotonic(digits@, i + 1);
            assert(digits@.take(i + 1).drop_last() == digits@.take(i as int));
            assert(digits@.take(i + 1).last() == c);
        }
        if c < '0' || c > '9' {
            assert(!('0' <= digits@[i as int] <= '9'));
            return None;
        }
        let d: u64 = (c as u32 - 48) as u64;
        if n > (u64::MAX - d) / 10 {
            return None;
        }
        n = n * 10 + d;
        i += 1;
    }
    assert(digits@.take(i as int) == digits@);
    Some(n)
}

/// A number in decimal notation is made of digits, and stands for itself.
pub proof fn lemma_decimal_digits(n: nat)
    ensures
        decimal(n).len() > 0,
        forall|i: int| 0 <= i < decimal(n).len() ==> '0' <= #[trigger] decimal(n)[i] <= '9',
        number_of(decimal(n)) == n,
    decreases n,
{
    if n < 10 {
        assert(decimal(n).drop_last() =~= Seq::<char>::empty());
        assert(number_of(Seq::<char>::empty()) == 0);
    } else {
        lemma_decimal_digits(n / 10);
        assert(decimal(n).drop_last() == decimal(n / 10));
    }
}

/// A number that was written in decimal notation is read back.
pub proof fn lemma_decimal_is_read_back(n: u64)
    ensures
        is_number(decimal(n as nat)),
        number_of(unsigned_part(decimal(n as nat))) == n,
{
    lemma_decimal_digits(n as nat);
    assert(decimal(n as nat)[0] != '+');
}

/// A menu line never outgrows its limit by more than the three dots.
pub proof fn lemma_status_menu_text_is_short(status: Seq<char>)
    ensures
        status_menu_text_of(status).len() <= 91,
{
    reveal_strlit("Status: ");
    reveal_strlit("...");
}

/// Whether a text is made of white characters.
pub open spec fn is_all_white(s: Seq<char>) -> bool {
    forall|i: int| 0 <= i < s.len() ==> is_white(#[trigger] s[i])
}

/// White characters in front do not count when a text is trimmed at its start.
pub proof fn lemma_trim_start_skips(white: Seq<char>, rest: Seq<char>)
    requires
        is_all_white(white),
    ensures
        trim_start(white + rest) == trim_start(rest),
    decreases white.len(),
{
    if white.len() == 0 {
        assert(white + rest =~= rest);
    } else {
        assert((white + rest)[0] == white[0]);
        assert((white + rest).drop_first() =~= white.drop_first() + rest);
        lemma_trim_start_skips(white.drop_first(), rest);
    }
}

/// White characters behind do not count when a text is trimmed at its end.
pub proof fn lemma_trim_end_skips(rest: Seq<char>, white: Seq<char>)
    requires
        is_all_white(white),
    ensures
        trim_end(rest + white) == trim_end(rest),
    decreases white.len(),
{
    if white.len() == 0 {
        assert(rest + white =~= rest);
    } else {
        assert((rest + white).last() == white.last());
        assert((rest + white).drop_last() =~= rest + white.drop_last());
        lemma_trim_end_skips(rest, white.drop_last());
    }
}

/// Trimming finds what stands between white characters, and takes off nothing else: whatever a
/// text is made of, it is that text once white characters are put around it and it is trimmed.
pub proof fn lemma_trim_finds_the_middle(before: Seq<char>, middle: Seq<char>, after: Seq<char>)
    requires
        is_all_white(before),
        is_all_white(after),
        middle.len() > 0 ==> !is_white(middle[0]) && !is_white(middle.last()),
    ensures
        trim(before + middle + after) == middle,
{
    assert(before + middle + after =~= before + (middle + after));
    lemma_trim_start_skips(before, middle + after);
    if middle.len() == 0 {
        assert(middle + after =~= after + Seq::<char>::empty());
        lemma_trim_start_skips(after, Seq::empty());
    } else {
        assert((middle + after)[0] == middle[0]);
        lemma_trim_end_skips(middle, after);
    }
}

proof fn lemma_one_line_step(s: Seq<char>, c: char)
    ensures
        one_line(s.push(c)) == if is_white(c) {
            one_line(s)
        } else if s.len() > 0 && !is_white(s.last()) {
            one_line(s).push(c)
        } else if one_line(s).len() == 0 {
            seq![c]
        } else {
            one_line(s).push(' ').push(c)
        },
        s.len() > 0 && !is_white(s.last()) ==> one_line(s).len() > 0,
{
    let now = s.push(c);
    assert(now.drop_last() =~= s);
    assert(now.last() == c);
    lemma_joined_is_empty(s);
    if s.len() > 0 && !is_white(s.last()) {
        lemma_last_word(s);
        lemma_joined_grows(words(s), c);
    } else {
        lemma_joined_starts(words(s), c);
    }
}

/// The line of a text with a white character in it is the line of what stands before it and the
/// line of what stands behind it, with one space between them where neither is empty.
pub proof fn lemma_one_line_joins_its_parts(a: Seq<char>, white: char, b: Seq<char>)
    requires
        is_white(white),
    ensures
        one_line(a.push(white) + b) == if one_line(a).len() == 0 {
            one_line(b)
        } else if one_line(b).len() == 0 {
            one_line(a)
        } else {
            one_line(a).push(' ') + one_line(b)
        },
    decreases b.len(),
{
    let all = a.push(white) + b;
    if b.len() == 0 {
        assert(all =~= a.push(white));
        lemma_one_line_step(a, white);
        assert(one_line(b).len() == 0);
        assert(one_line(b) =~= Seq::<char>::empty());
        if one_line(a).len() == 0 {
            assert(one_line(a) =~= one_line(b));
        }
    } else {
        let c = b.last();
        let shorter = b.drop_last();
        lemma_one_line_joins_its_parts(a, white, shorter);
        assert(all =~= (a.push(white) + shorter).push(c));
        assert(b =~= shorter.push(c));
        lemma_one_line_step(a.push(white) + shorter, c);
        lemma_one_line_step(shorter, c);
        if shorter.len() > 0 {
            assert((a.push(white) + shorter).last() == shorter.last());
        } else {
            assert((a.push(white) + shorter).last() == white);
            assert(one_line(shorter).len() == 0);
        }
        assert(one_line(all) =~= if one_line(a).len() == 0 {
            one_line(b)
        } else if one_line(b).len() == 0 {
            one_line(a)
        } else {
            one_line(a).push(' ') + one_line(b)
        });
    }
}

/// A text without white characters is a line already.
pub proof fn lemma_word_is_one_line(s: Seq<char>)
    requires
        forall|i: int| 0 <= i < s.len() ==> !is_white(#[trigger] s[i]),
    ensures
        one_line(s) == s,
    decreases s.len(),
{
    if s.len() > 0 {
        lemma_word_is_one_line(s.drop_last());
        assert(s =~= s.drop_last().push(s.last()));
        lemma_one_line_step(s.drop_last(), s.last());
        assert(one_line(s) =~= s);
    } else {
        assert(one_line(s) =~= s);
    }
}

/// Text that fits is left as it is. Text that does not is cut to its first characters, and three
/// dots say so.
pub proof fn lemma_shortened_keeps_the_start(s: Seq<char>, limit: nat)
    ensures
        s.len() <= limit ==> shortened(s, limit) == s,
        s.len() > limit ==> {
            &&& shortened(s, limit).len() == limit + 3
            &&& forall|i: int| 0 <= i < limit ==> shortened(s, limit)[i] == #[trigger] s[i]
            &&& forall|i: int|
                limit <= i < limit + 3 ==> #[trigger] shortened(s, limit)[i] == '.'
        },
{
    reveal_strlit("...");
}

/// What the menu and the previews show of a text is how it starts, and all of it where it is
/// short.
pub proof fn lemma_shown_texts_start_like_the_text(s: Seq<char>)
    ensures
        one_line(s).len() <= 80 ==> status_menu_text_of(s) == "Status: "@ + one_line(s),
        one_line(s).len() > 80 ==> status_menu_text_of(s) == "Status: "@ + one_line(s).take(80)
            + "..."@,
        0 < trim(s).len() <= 60 ==> preview_text_of(s) == "Last transcript: "@ + trim(s),
        trim(s).len() > 60 ==> preview_text_of(s) == "Last transcript: "@ + trim(s).take(60)
            + "..."@,
        one_line(s).len() > 0 ==> copy_last_transcript_menu_text_of(s)
            == "Zkopírovat poslední přepis: "@ + one_line(s),
{
    assert("Status: "@ + (one_line(s).take(80) + "..."@) =~= "Status: "@ + one_line(s).take(80)
        + "..."@);
    assert("Last transcript: "@ + (trim(s).take(60) + "..."@) =~= "Last transcript: "@ + trim(
        s,
    ).take(60) + "..."@);
}

/// Behind a number, one more digit makes it ten times as large and adds the digit; a single
/// digit stands for itself.
pub proof fn lemma_decimal_is_positional(n: nat, d: nat)
    requires
        d < 10,
    ensures
        decimal(d) == seq![('0' as nat + d) as char],
        n > 0 ==> decimal(n * 10 + d) == decimal(n).push(('0' as nat + d) as char),
{
    if n > 0 {
        assert((n * 10 + d) / 10 == n);
        assert((n * 10 + d) % 10 == d);
    }
}

/// A digit behind a number that is read makes it ten times as large and adds the digit. A plus
/// sign in front changes nothing, and neither do zeros.
pub proof fn lemma_numbers_are_read_digit_by_digit(digits: Seq<char>, c: char)
    requires
        '0' <= c <= '9',
    ensures
        number_of(digits.push(c)) == number_of(digits) * 10 + (c as nat - '0' as nat),
        number_of(seq![c]) == c as nat - '0' as nat,
        number_of(seq!['0'] + digits) == number_of(digits),
        digits.len() > 0 && digits[0] != '+' ==> unsigned_part(seq!['+'] + digits) == digits
            && unsigned_part(digits) == digits,
{
    assert(digits.push(c).drop_last() =~= digits);
    assert(seq![c].drop_last() =~= Seq::<char>::empty());
    assert(number_of(Seq::<char>::empty()) == 0);
    lemma_zero_in_front(digits);
    assert((seq!['+'] + digits).drop_first() =~= digits);
}

proof fn lemma_zero_in_front(digits: Seq<char>)
    ensures
        number_of(seq!['0'] + digits) == number_of(digits),
    decreases digits.len(),
{
    let all = seq!['0'] + digits;
    if digits.len() == 0 {
        assert(all.drop_last() =~= Seq::<char>::empty());
        assert(number_of(Seq::<char>::empty()) == 0);
        assert(all.last() == '0');
        assert(digits =~= Seq::<char>::empty());
    } else {
        lemma_zero_in_front(digits.drop_last());
        assert(all.drop_last() =~= seq!['0'] + digits.drop_last());
    }
}

/// The white characters that a text starts with.
pub proof fn lemma_white_at_the_start(s: Seq<char>) -> (white: Seq<char>)
    ensures
        is_all_white(white),
        s == white + trim_start(s),
    decreases s.len(),
{
    if s.len() > 0 && is_white(s[0]) {
        let rest = lemma_white_at_the_start(s.drop_first());
        let white = seq![s[0]] + rest;
        assert(s =~= seq![s[0]] + s.drop_first());
        assert(s =~= white + trim_start(s));
        white
    } else {
        assert(s =~= Seq::<char>::empty() + s);
        Seq::empty()
    }
}

/// The white characters that a text ends with.
pub proof fn lemma_white_at_the_end(s: Seq<char>) -> (white: Seq<char>)
    ensures
        is_all_white(white),
        s == trim_end(s) + white,
    decreases s.len(),
{
    if s.len() > 0 && is_white(s.last()) {
        let rest = lemma_white_at_the_end(s.drop_last());
        let white = rest.push(s.last());
        assert(s =~= s.drop_last().push(s.last()));
        assert(s =~= trim_end(s) + white);
        white
    } else {
        assert(s =~= s + Seq::<char>::empty());
        Seq::empty()
    }
}

/// Trimming at the start stops at a character that is not white.
pub proof fn lemma_trim_start_stops(a: Seq<char>, b: Seq<char>)
    requires
        b.len() > 0,
        !is_white(b[0]),
    ensures
        trim_start(a + b) == trim_start(a) + b,
    decreases a.len(),
{
    if a.len() == 0 {
        assert(a + b =~= b);
        assert(trim_start(a) + b =~= b);
    } else if is_white(a[0]) {
        assert((a + b).drop_first() =~= a.drop_first() + b);
        lemma_trim_start_stops(a.drop_first(), b);
    }
}

/// Trimming at the end stops at a character that is not white.
pub proof fn lemma_trim_end_stops(a: Seq<char>, b: Seq<char>)
    requires
        a.len() > 0,
        !is_white(a.last()),
    ensures
        trim_end(a + b) == a + trim_end(b),
    decreases b.len(),
{
    if b.len() == 0 {
        assert(a + b =~= a);
        assert(a + trim_end(b) =~= a);
    } else if is_white(b.last()) {
        assert((a + b).drop_last() =~= a + b.drop_last());
        lemma_trim_end_stops(a, b.drop_last());
    }
}

/// A text is blank, so that nothing is left once it is trimmed, exactly where it holds white
/// characters only.
pub proof fn lemma_blank_texts_are_white(s: Seq<char>)
    ensures
        trim(s).len() == 0 <==> is_all_white(s),
{
    let start = lemma_white_at_the_start(s);
    let rest = trim_start(s);
    let end = lemma_white_at_the_end(rest);
    if trim(s).len() == 0 {
        assert(s =~= start + end);
        assert forall|i: int| 0 <= i < s.len() implies is_white(#[trigger] s[i]) by {
            if i < start.len() {
                assert(is_white(start[i]));
            } else {
                assert(is_white(end[i - start.len()]));
            }
        }
    }
    if is_all_white(s) {
        lemma_trim_finds_the_middle(s, Seq::empty(), Seq::empty());
        assert(s + Seq::<char>::empty() + Seq::<char>::empty() =~= s);
    }
}

} // verus!

//! Speech recognisers that learned from film subtitles sometimes end a transcript with the
//! credit line of a subtitle author. This module takes such a line off.

use vstd::prelude::*;

use crate::text;

verus! {

/// What Unicode lower-casing makes of a text.
pub uninterp spec fn lowercase_of(s: Seq<char>) -> Seq<char>;

/// `str::to_lowercase` depends on the text alone; [`lowercase_of`] names its result.
pub assume_specification[ str::to_lowercase ](s: &str) -> (lower: String)
    ensures
        lower@ == lowercase_of(s@),
;

/// The characters that may follow the last sentence.
pub open spec fn may_follow(c: char) -> bool {
    c == '.' || c == '!' || c == '?' || text::is_white(c)
}

/// The characters behind which a sentence starts.
pub open spec fn ends_sentence(c: char) -> bool {
    c == '.' || c == '!' || c == '?' || c == '\n'
}

/// `s` without the sentence marks and white characters at its end.
pub open spec fn without_end_marks(s: Seq<char>) -> Seq<char>
    decreases s.len(),
{
    if s.len() > 0 && may_follow(s.last()) {
        without_end_marks(s.drop_last())
    } else {
        s
    }
}

/// How many characters stand before the last sentence of `s`.
pub open spec fn sentence_start(s: Seq<char>) -> nat
    decreases s.len(),
{
    if s.len() == 0 || ends_sentence(s.last()) {
        s.len()
    } else {
        sentence_start(s.drop_last())
    }
}

/// Where the last sentence of a transcript starts, once the white characters around the
/// transcript are gone.
pub open spec fn last_sentence_start(text: Seq<char>) -> nat {
    sentence_start(without_end_marks(text::trim(text)))
}

/// The last sentence of a transcript, without its end marks.
pub open spec fn last_sentence_of(text: Seq<char>) -> Seq<char> {
    text::trim_start(without_end_marks(text::trim(text)).skip(last_sentence_start(text) as int))
}

/// Whether `part` stands in `s` from position `i` on.
pub open spec fn stands_at(s: Seq<char>, part: Seq<char>, i: int) -> bool {
    0 <= i && i + part.len() <= s.len() && s.subrange(i, i + part.len()) == part
}

/// Whether `part` stands somewhere in `s`.
pub open spec fn holds(s: Seq<char>, part: Seq<char>) -> bool {
    exists|i: int| stands_at(s, part, i)
}

/// Whether a sentence, in lower case, is the credit line of a subtitle author.
pub open spec fn is_credit(lower: Seq<char>) -> bool {
    holds(lower, "titulky vytvořil "@)
}

/// A transcript without the white characters around it and, where `lower` is a credit line,
/// without its last sentence.
pub open spec fn stripped(text: Seq<char>, lower: Seq<char>) -> Seq<char> {
    if is_credit(lower) {
        text::trim_end(text::trim(text).take(last_sentence_start(text) as int))
    } else {
        text::trim(text)
    }
}

proof fn lemma_marks_are_cut_off(s: Seq<char>)
    ensures
        without_end_marks(s).len() <= s.len(),
        without_end_marks(s) == s.take(without_end_marks(s).len() as int),
    decreases s.len(),
{
    if s.len() > 0 && may_follow(s.last()) {
        lemma_marks_are_cut_off(s.drop_last());
        let n = without_end_marks(s.drop_last()).len() as int;
        assert(s.drop_last().take(n) == s.take(n));
    } else {
        assert(s.take(s.len() as int) == s);
    }
}

proof fn lemma_sentence_starts_inside(s: Seq<char>)
    ensures
        sentence_start(s) <= s.len(),
    decreases s.len(),
{
    if s.len() > 0 && !ends_sentence(s.last()) {
        lemma_sentence_starts_inside(s.drop_last());
    }
}

/// What is left of a transcript is how it started, with no white characters around it.
pub proof fn lemma_stripped_is_how_it_started(text: Seq<char>, lower: Seq<char>)
    ensures
        stripped(text, lower).is_prefix_of(text::trim(text)),
        text::trim(stripped(text, lower)) == stripped(text, lower),
{
    let inner = text::trim(text);
    text::lemma_trim_is_done_once(text);
    if is_credit(lower) {
        lemma_marks_are_cut_off(inner);
        lemma_sentence_starts_inside(without_end_marks(inner));
        let kept = inner.take(last_sentence_start(text) as int);
        text::lemma_trim_end_is_prefix(kept);
        if text::trim_end(kept).len() > 0 {
            assert(text::trim_end(kept)[0] == inner[0]);
        }
    }
}

fn end_of_last_sentence(chars: &[char]) -> (end: usize)
    ensures
        end <= chars@.len(),
        chars@.take(end as int) == without_end_marks(chars@),
{
    let mut end: usize = chars.len();
    assert(chars@.take(end as int) == chars@);
    while end > 0 && (chars[end - 1] == '.' || chars[end - 1] == '!' || chars[end - 1] == '?'
        || chars[end - 1].is_whitespace())
        invariant
            end <= chars@.len(),
            without_end_marks(chars@.take(end as int)) == without_end_marks(chars@),
        decreases end,
    {
        assert(chars@.take(end as int).drop_last() == chars@.take(end - 1));
        end -= 1;
    }
    end
}

fn start_of_last_sentence(chars: &[char]) -> (start: usize)
    ensures
        start == sentence_start(chars@),
        start <= chars@.len(),
{
    let mut start: usize = chars.len();
    assert(chars@.take(start as int) == chars@);
    while start > 0 && chars[start - 1] != '.' && chars[start - 1] != '!' && chars[start - 1] != '?'
        && chars[start - 1] != '\n'
        invariant
            start <= chars@.len(),
            sentence_start(chars@.take(start as int)) == sentence_start(chars@),
        decreases start,
    {
        assert(chars@.take(start as int).drop_last() == chars@.take(start - 1));
        start -= 1;
    }
    start
}

/// The last sentence of a transcript, without its end marks.
pub fn last_sentence(text: &str) -> (sentence: String)
    ensures
        sentence@ == last_sentence_of(text@),
{
    let chars = text::chars_of(text);
    let inner = text::trimmed(chars.as_slice());
    let end = end_of_last_sentence(inner);
    let unmarked = &inner[0..end];
    assert(unmarked@ == without_end_marks(text::trim(text@)));
    let start = start_of_last_sentence(unmarked);
    let sentence = &unmarked[start..unmarked.len()];
    assert(sentence@ == unmarked@.skip(start as int));
    let inset = text::start_of_text(sentence);
    let sentence_text = &sentence[inset..sentence.len()];
    assert(sentence_text@ == sentence@.skip(inset as int));
    text::string_of(sentence_text)
}

/// Whether `part` stands somewhere in `text`.
pub fn text_holds(text: &str, part: &str) -> (found: bool)
    ensures
        found == holds(text@, part@),
{
    let chars = text::chars_of(text);
    let wanted = text::chars_of(part);
    let mut i: usize = 0;
    while i <= chars.len() && wanted.len() <= chars.len() - i
        invariant
            i <= chars@.len() + 1,
            chars@ == text@,
            wanted@ == part@,
            forall|k: int| 0 <= k < i ==> !stands_at(text@, part@, k),
        decreases chars.len() + 1 - i,
    {
        let mut n: usize = 0;
        while n < wanted.len() && chars[i + n] == wanted[n]
            invariant
                n <= wanted@.len(),
                i + wanted.len() <= chars.len(),
                forall|k: int| 0 <= k < n ==> chars@[i + k] == wanted@[k],
            decreases wanted.len() - n,
        {
            n += 1;
        }
        if n == wanted.len() {
            assert(text@.subrange(i as int, i + part@.len()) =~= part@);
            assert(stands_at(text@, part@, i as int));
            return true;
        }
        assert(!stands_at(text@, part@, i as int)) by {
            assert(text@[i + n] != part@[n as int]);
            if stands_at(text@, part@, i as int) {
                assert(text@.subrange(i as int, i + part@.len())[n as int] == text@[i + n]);
            }
        }
        i += 1;
    }
    false
}

/// Takes the last sentence off a transcript where that sentence, which `lower` holds in lower
/// case, is a credit line.
pub fn strip_if_credit(text: &str, lower: &str) -> (transcript: String)
    ensures
        transcript@ == stripped(text@, lower@),
{
    let chars = text::chars_of(text);
    let inner = text::trimmed(chars.as_slice());
    if !text_holds(lower, "titulky vytvořil ") {
        return text::string_of(inner);
    }
    let end = end_of_last_sentence(inner);
    let unmarked = &inner[0..end];
    assert(unmarked@ == without_end_marks(text::trim(text@)));
    let start = start_of_last_sentence(unmarked);
    let kept = &inner[0..start];
    assert(kept@ == text::trim(text@).take(start as int));
    let kept_end = text::end_of_text(kept);
    let kept_text = &kept[0..kept_end];
    assert(kept_text@ == kept@.take(kept_end as int));
    text::string_of(kept_text)
}

/// The transcript without the white characters around it and without a subtitle author's
/// credit as its last sentence.
pub fn strip_trailing_subtitle_credit(text: &str) -> (transcript: String)
    ensures
        transcript@ == stripped(text@, lowercase_of(last_sentence_of(text@))),
{
    let sentence = last_sentence(text);
    let lower = sentence.as_str().to_lowercase();
    strip_if_credit(text, lower.as_str())
}

proof fn lemma_end_marks_stop(a: Seq<char>, b: Seq<char>)
    requires
        a.len() > 0,
        !may_follow(a.last()),
        forall|i: int| 0 <= i < b.len() ==> may_follow(#[trigger] b[i]),
    ensures
        without_end_marks(a + b) == a,
    decreases b.len(),
{
    if b.len() == 0 {
        assert(a + b =~= a);
    } else {
        assert((a + b).last() == b.last());
        assert((a + b).drop_last() =~= a + b.drop_last());
        lemma_end_marks_stop(a, b.drop_last());
    }
}

proof fn lemma_sentence_starts_before(a: Seq<char>, b: Seq<char>)
    requires
        forall|i: int| 0 <= i < b.len() ==> !ends_sentence(#[trigger] b[i]),
    ensures
        sentence_start(a + b) == sentence_start(a),
    decreases b.len(),
{
    if b.len() == 0 {
        assert(a + b =~= a);
    } else {
        assert((a + b).last() == b.last());
        assert((a + b).drop_last() =~= a + b.drop_last());
        lemma_sentence_starts_before(a, b.drop_last());
    }
}

proof fn lemma_inner_text(kept: Seq<char>, sentence: Seq<char>, tail: Seq<char>) -> (rest: Seq<
    char,
>)
    requires
        text::trim(sentence).len() > 0,
        forall|i: int|
            0 <= i < tail.len() ==> tail[i] == '.' || tail[i] == '!' || tail[i] == '?'
                || text::is_white(#[trigger] tail[i]),
    ensures
        forall|i: int| 0 <= i < rest.len() ==> may_follow(#[trigger] rest[i]),
        text::trim(kept + sentence + tail) == text::trim_start(kept + text::trim_end(sentence))
            + rest,
        text::trim_end(sentence).len() > 0,
        !text::is_white(text::trim_end(sentence).last()),
        text::trim(sentence) == text::trim_start(text::trim_end(sentence)),
{
    let before = text::lemma_white_at_the_start(sentence);
    let inner = text::trim(sentence);
    let after = text::lemma_white_at_the_end(text::trim_start(sentence));
    text::lemma_trim_is_done_once(sentence);
    let heard = before + inner;
    assert(sentence =~= heard + after);
    text::lemma_trim_end_skips(heard, after);
    assert(heard.last() == inner.last());
    assert(text::trim_end(heard) == heard);
    text::lemma_trim_start_skips(before, inner);
    // What stands around the text goes away, and so do the white characters among the end marks.
    let rest = after + tail;
    let head = kept + before;
    let all = kept + sentence + tail;
    assert(all =~= head + (inner + rest));
    text::lemma_trim_start_stops(head, inner + rest);
    text::lemma_trim_start_stops(head, inner);
    let front = text::trim_start(head) + inner;
    assert(text::trim_start(all) =~= front + rest);
    assert(head + inner =~= kept + heard);
    assert(front.last() == inner.last());
    text::lemma_trim_end_stops(front, rest);
    text::lemma_trim_end_is_prefix(rest);
    let left = text::trim_end(rest);
    assert forall|i: int| 0 <= i < left.len() implies may_follow(#[trigger] left[i]) by {
        assert(left[i] == rest[i]);
        if i < after.len() {
            assert(rest[i] == after[i]);
        } else {
            assert(rest[i] == tail[i - after.len()]);
        }
    }
    left
}

/// A credit is cut off right behind the mark or the line break before it, and nothing else is.
/// For all that comes before and ends with one of `.`, `!`, `?` or a line break, all sentences
/// without such characters that are not blank, and all marks and white characters at the end:
/// the sentence is the last one, it goes where it is a credit, and then all before it stays, but
/// for white characters around that.
pub proof fn lemma_only_the_credit_is_cut_off(
    kept: Seq<char>,
    sentence: Seq<char>,
    tail: Seq<char>,
    lower: Seq<char>,
)
    requires
        kept.len() > 0 ==> kept.last() == '.' || kept.last() == '!' || kept.last() == '?'
            || kept.last() == '\n',
        forall|i: int|
            0 <= i < sentence.len() ==> (#[trigger] sentence[i]) != '.' && sentence[i] != '!'
                && sentence[i] != '?' && sentence[i] != '\n',
        text::trim(sentence).len() > 0,
        forall|i: int|
            0 <= i < tail.len() ==> tail[i] == '.' || tail[i] == '!' || tail[i] == '?'
                || text::is_white(#[trigger] tail[i]),
    ensures
        last_sentence_of(kept + sentence + tail) == text::trim(sentence),
        is_credit(lower) ==> stripped(kept + sentence + tail, lower) == text::trim(kept),
        !is_credit(lower) ==> stripped(kept + sentence + tail, lower) == text::trim(
            kept + sentence + tail,
        ),
{
    let all = kept + sentence + tail;
    let rest = lemma_inner_text(kept, sentence, tail);
    let heard = text::trim_end(sentence);
    let front = text::trim_start(kept + heard);
    text::lemma_trim_end_is_prefix(sentence);
    assert forall|i: int| 0 <= i < heard.len() implies !ends_sentence(#[trigger] heard[i]) by {
        assert(heard[i] == sentence[i]);
    }
    assert(!may_follow(heard.last())) by {
        assert(heard.last() == sentence[heard.len() - 1]);
    }
    // Either all before the sentence is white, or it is kept from its first character on.
    let white = text::lemma_white_at_the_start(kept);
    let body = text::trim_start(kept);
    assert(kept + heard =~= white + (body + heard));
    text::lemma_trim_start_skips(white, body + heard);
    if body.len() == 0 {
        assert(body + heard =~= heard);
        text::lemma_white_at_the_start(heard);
        text::lemma_trim_start_is_suffix(heard);
        assert(front == text::trim_start(heard));
        assert forall|i: int| 0 <= i < front.len() implies !ends_sentence(#[trigger] front[i]) by {
            assert(front[i] == heard[heard.len() - front.len() + i]);
        }
        assert(front.last() == heard.last());
        lemma_end_marks_stop(front, rest);
        lemma_sentence_starts_before(Seq::empty(), front);
        assert(Seq::<char>::empty() + front =~= front);
        assert(front.skip(0) =~= front);
        text::lemma_trim_start_is_suffix(front);
        assert(text::trim(all).take(0) =~= Seq::<char>::empty());
        assert(text::trim(kept) =~= Seq::<char>::empty());
    } else {
        text::lemma_trim_start_is_suffix(kept);
        assert((body + heard)[0] == body[0]);
        assert(front == body + heard);
        assert(body.last() == kept.last());
        assert(front.last() == heard.last());
        lemma_end_marks_stop(front, rest);
        lemma_sentence_starts_before(body, heard);
        assert(front.skip(body.len() as int) =~= heard);
        assert(text::trim(all).take(body.len() as int) =~= body);
    }
}

/// A sentence is a credit exactly where the words of one stand somewhere in it.
pub proof fn lemma_credit_may_stand_anywhere(before: Seq<char>, after: Seq<char>)
    ensures
        is_credit(before + "titulky vytvořil "@ + after),
{
    let words = "titulky vytvořil "@;
    let all = before + words + after;
    assert(all.subrange(before.len() as int, (before.len() + words.len()) as int) =~= words);
    assert(stands_at(all, words, before.len() as int));
}

/// What is a credit holds the words of one.
pub proof fn lemma_credit_has_its_words(lower: Seq<char>) -> (parts: (Seq<char>, Seq<char>))
    requires
        is_credit(lower),
    ensures
        lower == parts.0 + "titulky vytvořil "@ + parts.1,
{
    let words = "titulky vytvořil "@;
    let i = choose|i: int| stands_at(lower, words, i);
    let before = lower.take(i);
    let after = lower.skip(i + words.len());
    assert(lower =~= before + lower.subrange(i, i + words.len()) + after);
    (before, after)
}

proof fn lemma_all_marks_go(marks: Seq<char>)
    requires
        forall|i: int| 0 <= i < marks.len() ==> may_follow(#[trigger] marks[i]),
    ensures
        without_end_marks(marks).len() == 0,
    decreases marks.len(),
{
    if marks.len() > 0 {
        lemma_all_marks_go(marks.drop_last());
    }
}

/// Marks and white characters alone are no sentence.
pub proof fn lemma_marks_alone_are_no_sentence(marks: Seq<char>)
    requires
        forall|i: int|
            0 <= i < marks.len() ==> marks[i] == '.' || marks[i] == '!' || marks[i] == '?'
                || text::is_white(#[trigger] marks[i]),
    ensures
        last_sentence_of(marks).len() == 0,
{
    let rest = text::trim_start(marks);
    let inner = text::trim(marks);
    text::lemma_trim_start_is_suffix(marks);
    text::lemma_trim_end_is_prefix(rest);
    assert forall|i: int| 0 <= i < inner.len() implies may_follow(#[trigger] inner[i]) by {
        assert(inner[i] == rest[i]);
        assert(rest[i] == marks[marks.len() - rest.len() + i]);
    }
    lemma_all_marks_go(inner);
    let sentence = without_end_marks(inner).skip(last_sentence_start(marks) as int);
    assert(last_sentence_start(marks) == 0);
    text::lemma_trim_start_is_suffix(sentence);
}

} // verus!

//! Asking the user, and understanding the answer.

use vstd::prelude::*;
use vstd::string::StrSliceExecFns;

verus! {

/// Whether a character is white space.
pub open spec fn is_white_space(c: char) -> bool {
    ||| '\u{9}' <= c <= '\u{d}'
    ||| c == ' '
    ||| c == '\u{85}'
    ||| c == '\u{a0}'
    ||| c == '\u{1680}'
    ||| '\u{2000}' <= c <= '\u{200a}'
    ||| c == '\u{2028}'
    ||| c == '\u{2029}'
    ||| c == '\u{202f}'
    ||| c == '\u{205f}'
    ||| c == '\u{3000}'
}

/// The text without the white space it starts with.
pub open spec fn trimmed_start(text: Seq<char>) -> Seq<char>
    decreases text.len(),
{
    if text.len() > 0 && is_white_space(text[0]) {
        trimmed_start(text.skip(1))
    } else {
        text
    }
}

/// The text without the white space it ends with.
pub open spec fn trimmed_end(text: Seq<char>) -> Seq<char>
    decreases text.len(),
{
    if text.len() > 0 && is_white_space(text.last()) {
        trimmed_end(text.drop_last())
    } else {
        text
    }
}

/// The lower-case form of an ASCII letter; any other character itself.
pub open spec fn ascii_lower(c: char) -> char {
    if 'A' <= c <= 'Z' {
        (c as u32 + 32) as char
    } else {
        c
    }
}

/// The word that an answer consists of: trimmed and in lower case.
pub open spec fn answered_word(answer: Seq<char>) -> Seq<char> {
    trimmed_end(trimmed_start(answer)).map_values(|c: char| ascii_lower(c))
}

/// What an answer says, if it says anything.
pub open spec fn answer_meaning(answer: Seq<char>) -> Option<bool> {
    let word = answered_word(answer);
    if word == "y"@ || word == "yes"@ {
        Some(true)
    } else if word == "n"@ || word == "no"@ {
        Some(false)
    } else {
        None
    }
}

fn white_space(c: char) -> (is: bool)
    ensures
        is == is_white_space(c),
{
    ('\u{9}' <= c && c <= '\u{d}') || c == ' ' || c == '\u{85}' || c == '\u{a0}' || c == '\u{1680}'
        || ('\u{2000}' <= c && c <= '\u{200a}') || c == '\u{2028}' || c == '\u{2029}' || c
        == '\u{202f}' || c == '\u{205f}' || c == '\u{3000}'
}

fn lower_is(c: char, lower: char) -> (is: bool)
    ensures
        is == (ascii_lower(c) == lower),
{
    if 'A' <= c && c <= 'Z' {
        c as u32 + 32 == lower as u32
    } else {
        c == lower
    }
}

/// Whether the characters of `answer` from `from` up to `to` are those of `word`,
/// whatever their case.
fn says(answer: &str, from: usize, to: usize, word: &str) -> (same: bool)
    requires
        from <= to <= answer@.len(),
    ensures
        same == (answer@.subrange(from as int, to as int).map_values(|c: char| ascii_lower(c))
            == word@),
{
    let ghost lowered = answer@.subrange(from as int, to as int).map_values(
        |c: char| ascii_lower(c),
    );
    if word.unicode_len() != to - from {
        return false;
    }
    let mut i: usize = 0;
    while i < to - from
        invariant
            from <= to <= answer@.len(),
            i <= to - from,
            word@.len() == to - from,
            lowered == answer@.subrange(from as int, to as int).map_values(
                |c: char| ascii_lower(c),
            ),
            forall|k: int| 0 <= k < i ==> lowered[k] == word@[k],
        decreases to - from - i,
    {
        if !lower_is(answer.get_char(from + i), word.get_char(i)) {
            assert(lowered[i as int] != word@[i as int]);
            return false;
        }
        i = i + 1;
    }
    assert(lowered =~= word@);
    true
}

/// Understands an answer to a yes-or-no question: `y`, `yes`, `n` or `no` in any
/// case, whatever white space is around it.
pub fn understand_answer(answer: &str) -> (meaning: Option<bool>)
    ensures
        meaning == answer_meaning(answer@),
{
    let len: usize = answer.unicode_len();
    let mut from: usize = 0;
    assert(answer@.skip(0) =~= answer@);
    while from < len && white_space(answer.get_char(from))
        invariant
            len == answer@.len(),
            from <= len,
            trimmed_start(answer@) == trimmed_start(answer@.skip(from as int)),
        decreases len - from,
    {
        assert(answer@.skip(from as int).skip(1) =~= answer@.skip(from + 1));
        from = from + 1;
    }
    let ghost started = trimmed_start(answer@);
    assert(started == answer@.skip(from as int));
    let mut to: usize = len;
    assert(answer@.subrange(from as int, to as int) =~= started);
    while from < to && white_space(answer.get_char(to - 1))
        invariant
            len == answer@.len(),
            from <= to <= len,
            trimmed_end(started) == trimmed_end(answer@.subrange(from as int, to as int)),
        decreases to,
    {
        assert(answer@.subrange(from as int, to as int).drop_last() =~= answer@.subrange(
            from as int,
            to - 1,
        ));
        to = to - 1;
    }
    assert(trimmed_end(started) == answer@.subrange(from as int, to as int));
    if says(answer, from, to, "y") || says(answer, from, to, "yes") {
        Some(true)
    } else if says(answer, from, to, "n") || says(answer, from, to, "no") {
        Some(false)
    } else {
        None
    }
}

/// White space around an answer does not matter.
pub proof fn law_surrounding_white_space_does_not_matter(
    before: Seq<char>,
    answer: Seq<char>,
    after: Seq<char>,
)
    requires
        forall|i: int| 0 <= i < before.len() ==> is_white_space(#[trigger] before[i]),
        forall|i: int| 0 <= i < after.len() ==> is_white_space(#[trigger] after[i]),
    ensures
        answer_meaning(before + answer + after) == answer_meaning(answer),
{
    let tail = answer + after;
    assert(before + answer + after =~= before + tail);
    lemma_leading_white_space(before, tail);
    lemma_trailing_white_space(answer, after);
}

proof fn lemma_leading_white_space(before: Seq<char>, rest: Seq<char>)
    requires
        forall|i: int| 0 <= i < before.len() ==> is_white_space(#[trigger] before[i]),
    ensures
        trimmed_start(before + rest) == trimmed_start(rest),
    decreases before.len(),
{
    if before.len() == 0 {
        assert(before + rest =~= rest);
    } else {
        assert((before + rest)[0] == before[0]);
        assert((before + rest).skip(1) =~= before.skip(1) + rest);
        assert forall|i: int| 0 <= i < before.skip(1).len() implies is_white_space(
            #[trigger] before.skip(1)[i],
        ) by {
            assert(before.skip(1)[i] == before[i + 1]);
        }
        lemma_leading_white_space(before.skip(1), rest);
    }
}

proof fn lemma_trimmed_end_of_sum(text: Seq<char>, after: Seq<char>)
    requires
        forall|i: int| 0 <= i < after.len() ==> is_white_space(#[trigger] after[i]),
    ensures
        trimmed_end(text + after) == trimmed_end(text),
    decreases after.len(),
{
    if after.len() == 0 {
        assert(text + after =~= text);
    } else {
        assert((text + after).last() == after.last());
        assert((text + after).drop_last() =~= text + after.drop_last());
        lemma_trimmed_end_of_sum(text, after.drop_last());
    }
}

proof fn lemma_trailing_white_space(text: Seq<char>, after: Seq<char>)
    requires
        forall|i: int| 0 <= i < after.len() ==> is_white_space(#[trigger] after[i]),
    ensures
        trimmed_end(trimmed_start(text + after)) == trimmed_end(trimmed_start(text)),
    decreases text.len(),
{
    if text.len() == 0 {
        assert(text + after =~= after);
        assert(after + Seq::<char>::empty() =~= after);
        lemma_leading_white_space(after, Seq::empty());
        assert(text =~= Seq::empty());
    } else if is_white_space(text[0]) {
        assert((text + after)[0] == text[0]);
        assert((text + after).skip(1) =~= text.skip(1) + after);
        lemma_trailing_white_space(text.skip(1), after);
    } else {
        assert((text + after)[0] == text[0]);
        lemma_trimmed_end_of_sum(text, after);
    }
}

/// The case of ASCII letters does not matter in an answer.
pub proof fn law_case_does_not_matter(a: Seq<char>, b: Seq<char>)
    requires
        a.len() == b.len(),
        forall|i: int| 0 <= i < a.len() ==> ascii_lower(#[trigger] a[i]) == ascii_lower(b[i]),
    ensures
        answer_meaning(a) == answer_meaning(b),
{
    lemma_same_start(a, b);
    lemma_same_end(trimmed_start(a), trimmed_start(b));
    assert(answered_word(a) =~= answered_word(b));
}

spec fn same_but_case(a: Seq<char>, b: Seq<char>) -> bool {
    a.len() == b.len() && forall|i: int|
        0 <= i < a.len() ==> ascii_lower(#[trigger] a[i]) == ascii_lower(b[i])
}

proof fn lemma_lower_keeps_white_space(a: char, b: char)
    requires
        ascii_lower(a) == ascii_lower(b),
    ensures
        is_white_space(a) == is_white_space(b),
{
}

proof fn lemma_same_start(a: Seq<char>, b: Seq<char>)
    requires
        same_but_case(a, b),
    ensures
        same_but_case(trimmed_start(a), trimmed_start(b)),
    decreases a.len(),
{
    if a.len() > 0 {
        assert(ascii_lower(a[0]) == ascii_lower(b[0]));
        lemma_lower_keeps_white_space(a[0], b[0]);
        if is_white_space(a[0]) {
            assert forall|i: int| 0 <= i < a.skip(1).len() implies ascii_lower(
                #[trigger] a.skip(1)[i],
            ) == ascii_lower(b.skip(1)[i]) by {
                assert(ascii_lower(a[i + 1]) == ascii_lower(b[i + 1]));
            }
            lemma_same_start(a.skip(1), b.skip(1));
        }
    }
}

proof fn lemma_same_end(a: Seq<char>, b: Seq<char>)
    requires
        same_but_case(a, b),
    ensures
        same_but_case(trimmed_end(a), trimmed_end(b)),
    decreases a.len(),
{
    if a.len() > 0 {
        assert(ascii_lower(a[a.len() - 1]) == ascii_lower(b[b.len() - 1]));
        lemma_lower_keeps_white_space(a.last(), b.last());
        if is_white_space(a.last()) {
            lemma_same_end(a.drop_last(), b.drop_last());
        }
    }
}

/// The words that are understood, where neither white space surrounds them nor a
/// letter is upper-case: `y` and `yes` say yes, `n` and `no` say no, and nothing
/// else says anything.
pub proof fn law_yes_and_no_are_understood(answer: Seq<char>)
    requires
        answer.len() > 0 ==> !is_white_space(answer[0]) && !is_white_space(answer.last()),
        forall|i: int| 0 <= i < answer.len() ==> !('A' <= #[trigger] answer[i] <= 'Z'),
    ensures
        answer_meaning(answer) == Some(true) <==> answer == "y"@ || answer == "yes"@,
        answer_meaning(answer) == Some(false) <==> answer == "n"@ || answer == "no"@,
{
    reveal_strlit("y");
    reveal_strlit("yes");
    reveal_strlit("n");
    reveal_strlit("no");
    assert(trimmed_start(answer) == answer);
    assert(trimmed_end(answer) == answer);
    assert(answered_word(answer) =~= answer);
    assert("n"@[0] != "y"@[0]);
    assert("no"@[0] != "y"@[0]);
    assert("no"@[0] != "yes"@[0]);
}

/// White space is what has Unicode's property of that name: the ASCII controls from
/// tab to carriage return and the space, the next line, the no-break space, and
/// seventeen characters above. No visible ASCII character is.
pub proof fn law_visible_characters_are_no_white_space(c: char)
    ensures
        '!' <= c <= '~' ==> !is_white_space(c),
        is_white_space(c) <==> {
            let n = c as u32;
            ||| 0x9 <= n <= 0xd
            ||| n == 0x20
            ||| n == 0x85
            ||| n == 0xa0
            ||| n == 0x1680
            ||| 0x2000 <= n <= 0x200a
            ||| n == 0x2028
            ||| n == 0x2029
            ||| n == 0x202f
            ||| n == 0x205f
            ||| n == 0x3000
        },
{
}

/// The lower-case form changes the upper-case ASCII letters alone.
pub proof fn law_lower_case_changes_upper_case_letters_alone(c: char)
    ensures
        'A' <= c <= 'Z' ==> ascii_lower(c) as u32 == c as u32 + ('a' as u32 - 'A' as u32),
        !('A' <= c <= 'Z') ==> ascii_lower(c) == c,
{
}

} // verus!

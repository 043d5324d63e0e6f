use vstd::prelude::*;

verus! {

/// Whether the character has the Unicode property `White_Space`.
pub uninterp spec fn is_white_space(c: char) -> bool;

/// Whether the character is a letter or a number in the terms of Unicode.
pub uninterp spec fn is_alphanumeric_char(c: char) -> bool;

/// Calls `char::is_whitespace`, which tells whether the character has the
/// Unicode property `White_Space`. The contract gives that answer a name.
#[verifier::external_body]
pub(crate) fn char_is_whitespace(c: char) -> (white: bool)
    ensures
        white == is_white_space(c),
{
    c.is_whitespace()
}

/// Calls `char::is_alphanumeric`, which tells whether the character is
/// alphabetic or numeric in the terms of Unicode. The contract gives that
/// answer a name.
#[verifier::external_body]
pub(crate) fn char_is_alphanumeric(c: char) -> (alphanumeric: bool)
    ensures
        alphanumeric == is_alphanumeric_char(c),
{
    c.is_alphanumeric()
}

/// Calls `String::push`, which appends the character to the string.
#[verifier::external_body]
pub(crate) fn push_char(text: &mut String, c: char)
    ensures
        final(text)@ == old(text)@.push(c),
{
    text.push(c);
}

/// The characters of the text.
pub fn to_chars(text: &str) -> (chars: Vec<char>)
    ensures
        chars@ == text@,
{
    let mut chars: Vec<char> = Vec::new();
    for c in it: text.chars()
        invariant
            chars@ == it.seq().take(it.index() as int),
            it.seq() == text@,
    {
        chars.push(c);
    }
    chars
}

/// The text made of the characters from `start` up to `end`.
pub fn to_text(chars: &Vec<char>, start: usize, end: usize) -> (text: String)
    requires
        start <= end <= chars@.len(),
    ensures
        text@ == chars@.subrange(start as int, end as int),
{
    let mut text = String::new();
    let mut index = start;
    while index < end
        invariant
            start <= index <= end <= chars@.len(),
            text@ == chars@.subrange(start as int, index as int),
        decreases end - index,
    {
        push_char(&mut text, chars[index]);
        index = index + 1;
        assert(text@ =~= chars@.subrange(start as int, index as int));
    }
    text
}

/// The first place at or after `from` where `c` stands in `text`; the
/// length of `text` when there is none.
pub open spec fn index_of_from(text: Seq<char>, c: char, from: int) -> int
    decreases text.len() - from,
{
    if from < 0 || from >= text.len() {
        text.len() as int
    } else if text[from] == c {
        from
    } else {
        index_of_from(text, c, from + 1)
    }
}

/// The place found lies at or after `from`, holds `c` when it lies in
/// the text, and `c` does not stand before it.
pub proof fn lemma_index_of_from(text: Seq<char>, c: char, from: int)
    requires
        0 <= from <= text.len(),
    ensures
        from <= index_of_from(text, c, from) <= text.len(),
        index_of_from(text, c, from) < text.len() ==> text[index_of_from(text, c, from)] == c,
        forall|i: int| from <= i < index_of_from(text, c, from) ==> text[i] != c,
    decreases text.len() - from,
{
    if from < text.len() && text[from] != c {
        lemma_index_of_from(text, c, from + 1);
    }
}

/// The length of `text` without the white space at its end.
pub open spec fn trimmed_len(text: Seq<char>) -> nat
    decreases text.len(),
{
    if text.len() > 0 && is_white_space(text.last()) {
        trimmed_len(text.drop_last())
    } else {
        text.len()
    }
}

/// What is left out at the end is white space, and what is kept does
/// not end in white space.
pub proof fn lemma_trimmed_len(text: Seq<char>)
    ensures
        trimmed_len(text) <= text.len(),
        forall|i: int| trimmed_len(text) <= i < text.len() ==> is_white_space(text[i]),
        trimmed_len(text) > 0 ==> !is_white_space(text[trimmed_len(text) - 1]),
    decreases text.len(),
{
    if text.len() > 0 && is_white_space(text.last()) {
        lemma_trimmed_len(text.drop_last());
        assert forall|i: int| trimmed_len(text) <= i < text.len() implies is_white_space(text[i]) by {
            if i < text.len() - 1 {
                assert(text.drop_last()[i] == text[i]);
            }
        }
        if trimmed_len(text) > 0 {
            assert(text.drop_last()[trimmed_len(text) - 1] == text[trimmed_len(text) - 1]);
        }
    }
}

/// `text` without the white space at its end.
pub open spec fn trim_end(text: Seq<char>) -> Seq<char> {
    text.take(trimmed_len(text) as int)
}

/// Where the characters from `start` up to `end` end when the white space
/// at their end is left out.
pub fn trimmed_end(chars: &Vec<char>, start: usize, end: usize) -> (trimmed: usize)
    requires
        start <= end <= chars@.len(),
    ensures
        start <= trimmed <= end,
        trimmed == start + trimmed_len(chars@.subrange(start as int, end as int)),
        chars@.subrange(start as int, trimmed as int) == trim_end(chars@.subrange(start as int, end as int)),
        forall|i: int| trimmed <= i < end ==> is_white_space(#[trigger] chars@[i]),
        trimmed > start ==> !is_white_space(chars@[trimmed - 1]),
{
    let mut trimmed = end;
    while trimmed > start && char_is_whitespace(chars[trimmed - 1])
        invariant
            start <= trimmed <= end <= chars@.len(),
            trimmed_len(chars@.subrange(start as int, trimmed as int)) == trimmed_len(
                chars@.subrange(start as int, end as int),
            ),
        decreases trimmed,
    {
        assert(chars@.subrange(start as int, trimmed as int).drop_last() =~= chars@.subrange(
            start as int,
            trimmed - 1,
        ));
        trimmed = trimmed - 1;
    }
    assert(chars@.subrange(start as int, trimmed as int) =~= chars@.subrange(start as int, end as int).take(
        trimmed - start,
    ));
    proof {
        let text = chars@.subrange(start as int, end as int);
        lemma_trimmed_len(text);
        assert forall|i: int| trimmed <= i < end implies is_white_space(#[trigger] chars@[i]) by {
            assert(text[i - start] == chars@[i]);
        }
        if trimmed > start {
            assert(text[trimmed - start - 1] == chars@[trimmed - 1]);
        }
    }
    trimmed
}

} // verus!

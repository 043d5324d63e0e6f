use super::conditions::if_above_width;
use super::counter_cell::CounterCell;
use super::print_items::{
    is_plain_text, Condition, ConditionProperties, ConditionResolver, Info, ItemText, PrintItem,
    PrintItems, Signal,
};
use super::text::{
    char_is_alphanumeric, index_of_from, is_alphanumeric_char, lemma_index_of_from, push_char, to_chars,
    trim_end, trimmed_end, trimmed_len,
};
use std::rc::Rc;
use vstd::prelude::*;

verus! {

/// `count` times the signal.
pub open spec fn signals(signal: Signal, count: nat) -> Seq<PrintItem> {
    Seq::new(count, |i: int| PrintItem::Signal(signal))
}

/// `items` between the two signals; no items stay no items.
pub open spec fn surrounded(items: Seq<PrintItem>, before: Signal, after: Signal) -> Seq<PrintItem> {
    if items.len() == 0 {
        items
    } else {
        seq![PrintItem::Signal(before)] + items + seq![PrintItem::Signal(after)]
    }
}

fn surround(item: PrintItems, before: Signal, after: Signal) -> (items: PrintItems)
    ensures
        items@ == surrounded(item@, before, after),
{
    if item.is_empty() {
        return item;
    }
    let mut items = PrintItems::new();
    items.push_signal(before);
    items.extend(item);
    items.push_signal(after);
    assert(items@ =~= surrounded(item@, before, after));
    items
}

/// Puts a line break before and after the items.
pub fn surround_with_new_lines(item: PrintItems) -> (items: PrintItems)
    ensures
        items@ == surrounded(item@, Signal::NewLine, Signal::NewLine),
{
    surround(item, Signal::NewLine, Signal::NewLine)
}

/// Indents the items by one level.
pub fn with_indent(item: PrintItems) -> (items: PrintItems)
    ensures
        items@ == surrounded(item@, Signal::StartIndent, Signal::FinishIndent),
{
    let items = with_indent_times(item, 1);
    assert(items@ =~= surrounded(item@, Signal::StartIndent, Signal::FinishIndent));
    items
}

/// Indents the lines after the first by one level.
pub fn with_queued_indent(item: PrintItems) -> (items: PrintItems)
    ensures
        items@ == surrounded(item@, Signal::QueueStartIndent, Signal::FinishIndent),
{
    surround(item, Signal::QueueStartIndent, Signal::FinishIndent)
}

/// Indents the items by `times` levels.
pub fn with_indent_times(item: PrintItems, times: u32) -> (items: PrintItems)
    ensures
        items@ == if item@.len() == 0 {
            item@
        } else {
            signals(Signal::StartIndent, times as nat) + item@ + signals(Signal::FinishIndent, times as nat)
        },
{
    if item.is_empty() {
        return item;
    }
    let mut items = PrintItems::new();
    let mut count: u32 = 0;
    while count < times
        invariant
            count <= times,
            items@ == signals(Signal::StartIndent, count as nat),
        decreases times - count,
    {
        items.push_signal(Signal::StartIndent);
        count = count + 1;
        assert(items@ =~= signals(Signal::StartIndent, count as nat));
    }
    items.extend(item);
    let mut count: u32 = 0;
    while count < times
        invariant
            count <= times,
            items@ == signals(Signal::StartIndent, times as nat) + item@ + signals(
                Signal::FinishIndent,
                count as nat,
            ),
        decreases times - count,
    {
        items.push_signal(Signal::FinishIndent);
        count = count + 1;
        assert(items@ =~= signals(Signal::StartIndent, times as nat) + item@ + signals(
            Signal::FinishIndent,
            count as nat,
        ));
    }
    items
}

/// Forbids line breaks among the items.
pub fn with_no_new_lines(item: PrintItems) -> (items: PrintItems)
    ensures
        items@ == surrounded(item@, Signal::StartForceNoNewLines, Signal::FinishForceNoNewLines),
{
    surround(item, Signal::StartForceNoNewLines, Signal::FinishForceNoNewLines)
}

/// Makes the items a group whose line breaks are taken together.
pub fn new_line_group(item: PrintItems) -> (items: PrintItems)
    ensures
        items@ == surrounded(item@, Signal::StartNewLineGroup, Signal::FinishNewLineGroup),
{
    surround(item, Signal::StartNewLineGroup, Signal::FinishNewLineGroup)
}

/// A text run as items: nothing when the run is empty.
pub open spec fn text_run(run: Seq<char>) -> Seq<ItemText> {
    if run.len() == 0 {
        Seq::empty()
    } else {
        seq![ItemText::Text(run)]
    }
}

/// The items of a line from `from` on: the text runs between its tabs,
/// with a tab signal for each tab.
pub open spec fn line_items(line: Seq<char>, from: int) -> Seq<ItemText>
    decreases line.len() - from,
{
    if from < 0 || from > line.len() {
        Seq::empty()
    } else {
        let end = index_of_from(line, '\t', from);
        text_run(line.subrange(from, end)) + if end < line.len() {
            proof {
                lemma_index_of_from(line, '\t', from);
            }
            seq![ItemText::Signal(Signal::Tab)] + line_items(line, end + 1)
        } else {
            Seq::empty()
        }
    }
}

/// A line as it is parsed: without the white space at its end when
/// `trim` is set, else without the carriage return before its newline.
pub open spec fn line_text(raw: Seq<char>, terminated: bool, trim: bool) -> Seq<char> {
    if trim {
        trim_end(raw)
    } else if terminated && raw.len() > 0 && raw.last() == '\r' {
        raw.drop_last()
    } else {
        raw
    }
}

/// The items of `text` from `from` on: the items of its lines, with a
/// newline signal for each newline.
pub open spec fn text_items(text: Seq<char>, from: int, trim: bool) -> Seq<ItemText>
    decreases text.len() - from,
{
    if from < 0 || from >= text.len() {
        Seq::empty()
    } else {
        let end = index_of_from(text, '\n', from);
        line_items(line_text(text.subrange(from, end), end < text.len(), trim), 0) + if end < text.len() {
            proof {
                lemma_index_of_from(text, '\n', from);
            }
            seq![ItemText::Signal(Signal::NewLine)] + text_items(text, end + 1, trim)
        } else {
            Seq::empty()
        }
    }
}

/// The items of `text`, between signals that switch indentation off when
/// the text has several lines.
pub open spec fn raw_text_items(text: Seq<char>, trim: bool) -> Seq<ItemText> {
    if text.contains('\n') {
        seq![ItemText::Signal(Signal::StartIgnoringIndent)] + text_items(text, 0, trim) + seq![
            ItemText::Signal(Signal::FinishIgnoringIndent),
        ]
    } else {
        text_items(text, 0, trim)
    }
}

/// Parses the characters from `start` up to `end`, which are one line.
fn parse_string_line(chars: &Vec<char>, start: usize, end: usize) -> (items: PrintItems)
    requires
        start <= end <= chars@.len(),
        !chars@.subrange(start as int, end as int).contains('\n'),
    ensures
        items.text_view() == line_items(chars@.subrange(start as int, end as int), 0),
{
    let ghost line = chars@.subrange(start as int, end as int);
    let mut items = PrintItems::new();
    let mut run = String::new();
    let ghost mut run_start: int = 0;
    let mut index = start;
    assert(items.text_view() =~= Seq::<ItemText>::empty());
    while index < end
        invariant
            start <= index <= end <= chars@.len(),
            line == chars@.subrange(start as int, end as int),
            !line.contains('\n'),
            0 <= run_start <= index - start,
            run@ == line.subrange(run_start, index - start),
            is_plain_text(run@),
            index_of_from(line, '\t', run_start) == index_of_from(line, '\t', index - start),
            items.text_view() + line_items(line, run_start) == line_items(line, 0),
        decreases end - index,
    {
        let c = chars[index];
        assert(line[index - start] == c);
        if c == '\t' {
            let ghost before = items.text_view();
            if !run.as_str().is_empty() {
                items.push_string(run);
            }
            run = String::new();
            items.push_signal(Signal::Tab);
            proof {
                assert(items.text_view() =~= before + text_run(line.subrange(run_start, index - start)) + seq![
                    ItemText::Signal(Signal::Tab),
                ]);
                assert(before + line_items(line, run_start) =~= items.text_view() + line_items(
                    line,
                    index - start + 1,
                ));
                run_start = index - start + 1;
                assert(run@ =~= line.subrange(run_start, run_start));
            }
        } else {
            let ghost old_run = run@;
            push_char(&mut run, c);
            assert(run@ =~= line.subrange(run_start, index - start + 1));
            assert forall|i: int| 0 <= i < run@.len() implies run@[i] != '\n' && run@[i] != '\t' by {
                if i < old_run.len() {
                    assert(old_run[i] == run@[i]);
                }
            }
        }
        index = index + 1;
    }
    let ghost before = items.text_view();
    if !run.as_str().is_empty() {
        items.push_string(run);
    }
    assert(items.text_view() =~= before + line_items(line, run_start));
    items
}

/// Where the line from `start` up to `end` ends as it is parsed.
fn line_end(chars: &Vec<char>, start: usize, end: usize, terminated: bool, trim: bool) -> (stripped: usize)
    requires
        start <= end <= chars@.len(),
    ensures
        start <= stripped <= end,
        chars@.subrange(start as int, stripped as int) == line_text(
            chars@.subrange(start as int, end as int),
            terminated,
            trim,
        ),
{
    let ghost raw = chars@.subrange(start as int, end as int);
    if trim {
        trimmed_end(chars, start, end)
    } else if terminated && end > start && chars[end - 1] == '\r' {
        assert(raw.last() == '\r');
        assert(chars@.subrange(start as int, end - 1) =~= raw.drop_last());
        end - 1
    } else {
        assert(raw.len() > 0 ==> raw.last() == chars@[end - 1]);
        end
    }
}

/// Parses the lines of the text, with a newline signal between them.
fn parse_string_lines(chars: &Vec<char>, trim_line_ends: bool) -> (items: PrintItems)
    ensures
        items.text_view() == text_items(chars@, 0, trim_line_ends),
{
    let ghost text = chars@;
    let mut items = PrintItems::new();
    let mut line_start: usize = 0;
    let mut index: usize = 0;
    assert(items.text_view() =~= Seq::<ItemText>::empty());
    while index < chars.len()
        invariant
            text == chars@,
            line_start <= index <= chars@.len(),
            forall|i: int| line_start <= i < index ==> text[i] != '\n',
            index_of_from(text, '\n', line_start as int) == index_of_from(text, '\n', index as int),
            items.text_view() + text_items(text, line_start as int, trim_line_ends) == text_items(
                text,
                0,
                trim_line_ends,
            ),
        decreases chars@.len() - index,
    {
        if chars[index] == '\n' {
            let ghost before = items.text_view();
            let end = line_end(chars, line_start, index, true, trim_line_ends);
            assert(!text.subrange(line_start as int, end as int).contains('\n'));
            let line = parse_string_line(chars, line_start, end);
            items.extend(line);
            items.push_signal(Signal::NewLine);
            proof {
                let raw = text.subrange(line_start as int, index as int);
                assert(items.text_view() =~= before + line_items(line_text(raw, true, trim_line_ends), 0) + seq![
                    ItemText::Signal(Signal::NewLine),
                ]);
                assert(before + text_items(text, line_start as int, trim_line_ends) =~= items.text_view()
                    + text_items(text, index + 1, trim_line_ends));
            }
            line_start = index + 1;
        }
        index = index + 1;
    }
    if line_start < chars.len() {
        let ghost before = items.text_view();
        let end = line_end(chars, line_start, chars.len(), false, trim_line_ends);
        assert(!text.subrange(line_start as int, end as int).contains('\n'));
        let line = parse_string_line(chars, line_start, end);
        items.extend(line);
        assert(items.text_view() =~= before + text_items(text, line_start as int, trim_line_ends));
    } else {
        assert(items.text_view() =~= items.text_view() + text_items(text, line_start as int, trim_line_ends));
    }
    items
}

/// Whether the character stands among `chars`.
fn contains_char(chars: &Vec<char>, c: char) -> (found: bool)
    ensures
        found == chars@.contains(c),
{
    let mut index: usize = 0;
    while index < chars.len()
        invariant
            index <= chars@.len(),
            forall|i: int| 0 <= i < index ==> chars@[i] != c,
        decreases chars@.len() - index,
    {
        if chars[index] == c {
            return true;
        }
        index = index + 1;
    }
    false
}

/// Parses the lines of the text; when there are several, indentation is
/// switched off for them.
fn parse_raw_string_lines(chars: &Vec<char>, trim_line_ends: bool) -> (items: PrintItems)
    ensures
        items.text_view() == raw_text_items(chars@, trim_line_ends),
{
    let add_ignore_indent = contains_char(chars, '\n');
    let mut items = PrintItems::new();
    assert(items.text_view() =~= Seq::<ItemText>::empty());
    if add_ignore_indent {
        items.push_signal(Signal::StartIgnoringIndent);
    }
    items.extend(parse_string_lines(chars, trim_line_ends));
    if add_ignore_indent {
        items.push_signal(Signal::FinishIgnoringIndent);
    }
    assert(items.text_view() =~= raw_text_items(chars@, trim_line_ends));
    items
}

/// Parses a string as is and ignores its indent.
pub fn parse_raw_string(text: &str) -> (items: PrintItems)
    ensures
        items.text_view() == raw_text_items(text@, false),
{
    let chars = to_chars(text);
    parse_raw_string_lines(&chars, false)
}

/// Parses a string trimming the end of each line and ignores its indent.
pub fn parse_raw_string_trim_line_ends(text: &str) -> (items: PrintItems)
    ensures
        items.text_view() == raw_text_items(text@, true),
{
    let chars = to_chars(text);
    parse_raw_string_lines(&chars, true)
}

/// Parses a string to a series of print items.
pub fn parse_string(text: &str) -> (items: PrintItems)
    ensures
        items.text_view() == text_items(text@, 0, false),
{
    let chars = to_chars(text);
    parse_string_lines(&chars, false)
}

/// Parses a string to a series of print items, trimming the end of each
/// line for white space.
pub fn parse_string_trim_line_ends(text: &str) -> (items: PrintItems)
    ensures
        items.text_view() == text_items(text@, 0, true),
{
    let chars = to_chars(text);
    parse_string_lines(&chars, true)
}

/// What `surround_with_newlines_indented_if_multi_line` makes of `inner`:
/// a marker, a condition, a marker. The condition asks whether the second
/// marker lies on a later line than the first. Where it does, the items
/// stand indented between two line breaks; elsewhere they stand as they
/// are, after a possible line break where the line is already past
/// `indent_width`. The numbers are the four after `first_id`.
pub open spec fn is_surrounded_if_multi_line(
    items: Seq<PrintItem>,
    inner: PrintItems,
    indent_width: u8,
    first_id: nat,
) -> bool {
    &&& items.len() == 3
    &&& items[0] matches PrintItem::Info(start_info)
    &&& items[2] matches PrintItem::Info(end_info)
    &&& items[1] matches PrintItem::Condition(condition)
    &&& start_info.id == first_id + 1
    &&& start_info.name == "surroundWithNewLinesIndentedIfMultiLineStart"
    &&& end_info.id == first_id + 2
    &&& end_info.name == "surroundWithNewLineIndentedsIfMultiLineEnd"
    &&& condition.id == first_id + 4
    &&& condition.name == "newlineIfMultiLine"
    &&& condition.is_stored
    &&& condition.condition == (ConditionResolver::IsMultipleLinesSinceMoved { start: start_info, end: end_info })
    &&& condition.dependent_infos matches Some(infos)
    &&& infos@ == seq![end_info]
    &&& condition.true_path matches Some(true_path)
    &&& condition.false_path matches Some(false_path)
    &&& true_path@ == seq![
        PrintItem::Signal(Signal::NewLine),
        PrintItem::Signal(Signal::StartIndent),
        PrintItem::RcPath(Rc::new(inner)),
        PrintItem::Signal(Signal::FinishIndent),
        PrintItem::Signal(Signal::NewLine),
    ]
    &&& false_path@.len() == 2
    &&& false_path@[1] == PrintItem::RcPath(Rc::new(inner))
    &&& false_path@[0] matches PrintItem::Condition(if_above)
    &&& if_above.id == first_id + 3
    &&& if_above.name == "ifAboveWidth"
    &&& !if_above.is_stored
    &&& if_above.dependent_infos is None
    &&& if_above.condition == ConditionResolver::IsAboveWidth(indent_width)
    &&& if_above.false_path is None
    &&& if_above.true_path matches Some(possible_new_line)
    &&& possible_new_line@ == seq![PrintItem::Signal(Signal::PossibleNewLine)]
}

/// Surrounds the items with newlines and indentation if they end up on
/// several lines. Nothing is added to no items.
pub fn surround_with_newlines_indented_if_multi_line(
    inner_items: PrintItems,
    indent_width: u8,
    counter: &mut CounterCell,
) -> (items: PrintItems)
    requires
        old(counter).value() + 4 <= usize::MAX,
    ensures
        inner_items@.len() == 0 ==> items@ == inner_items@ && final(counter).value() == old(counter).value(),
        inner_items@.len() > 0 ==> final(counter).value() == old(counter).value() + 4
            && is_surrounded_if_multi_line(items@, inner_items, indent_width, old(counter).value()),
{
    if inner_items.is_empty() {
        return inner_items;
    }
    let mut items = PrintItems::new();
    let start_info = Info::new("surroundWithNewLinesIndentedIfMultiLineStart", counter);
    let end_info = Info::new("surroundWithNewLineIndentedsIfMultiLineEnd", counter);
    let inner_items = inner_items.into_rc_path();
    let true_path = surround_with_new_lines(with_indent(PrintItems::from_rc_path(&inner_items)));
    let mut false_path = PrintItems::new();
    false_path.push_condition(if_above_width(indent_width, PrintItems::from_signal(Signal::PossibleNewLine), counter));
    false_path.extend(PrintItems::from_rc_path(&inner_items));
    let mut dependent_infos: Vec<Info> = Vec::new();
    dependent_infos.push(end_info);
    items.push_info(start_info);
    items.push_condition(
        Condition::new_with_dependent_infos(
            "newlineIfMultiLine",
            ConditionProperties {
                true_path: Some(true_path),
                false_path: Some(false_path),
                condition: ConditionResolver::IsMultipleLinesSinceMoved { start: start_info, end: end_info },
            },
            dependent_infos,
            counter,
        ),
    );
    items.push_info(end_info);
    assert(true_path@ =~= seq![
        PrintItem::Signal(Signal::NewLine),
        PrintItem::Signal(Signal::StartIndent),
        PrintItem::RcPath(inner_items.unwrap()),
        PrintItem::Signal(Signal::FinishIndent),
        PrintItem::Signal(Signal::NewLine),
    ]);
    items
}

/// The first place at or after `from` where something else than `c`
/// stands in `text`; the length of `text` when there is none.
pub open spec fn index_of_other_from(text: Seq<char>, c: char, from: int) -> int
    decreases text.len() - from,
{
    if from < 0 || from >= text.len() {
        text.len() as int
    } else if text[from] != c {
        from
    } else {
        index_of_other_from(text, c, from + 1)
    }
}

/// The text of a line comment as it is written: two slashes, the slashes
/// that `text` starts with, and what follows them in `text` without the
/// white space at its end. With `force_space_after_slashes`, one space
/// stands between the slashes and what follows, whether `text` had it or not.
pub open spec fn comment_line_text(text: Seq<char>, force_space_after_slashes: bool) -> Seq<char> {
    let non_slash_index = index_of_other_from(text, '/', 0);
    let skip_space = force_space_after_slashes && non_slash_index < text.len() && text[non_slash_index] == ' ';
    let start_text_index = if skip_space {
        non_slash_index + 1
    } else {
        non_slash_index
    };
    let comment_text = trim_end(text.subrange(start_text_index, text.len() as int));
    let prefix = seq!['/', '/'] + text.take(non_slash_index);
    if comment_text.len() == 0 {
        prefix
    } else if force_space_after_slashes {
        prefix + seq![' '] + comment_text
    } else {
        prefix + comment_text
    }
}

fn get_first_non_slash_index(chars: &Vec<char>) -> (index: usize)
    ensures
        index <= chars@.len(),
        index == index_of_other_from(chars@, '/', 0),
{
    let mut index: usize = 0;
    while index < chars.len() && chars[index] == '/'
        invariant
            index <= chars@.len(),
            index_of_other_from(chars@, '/', index as int) == index_of_other_from(chars@, '/', 0),
        decreases chars@.len() - index,
    {
        index = index + 1;
    }
    index
}

fn get_comment_text(chars: &Vec<char>, force_space_after_slashes: bool) -> (comment: Vec<char>)
    ensures
        comment@ == comment_line_text(chars@, force_space_after_slashes),
{
    let non_slash_index = get_first_non_slash_index(chars);
    let skip_space = force_space_after_slashes && non_slash_index < chars.len() && chars[non_slash_index] == ' ';
    let start_text_index = if skip_space {
        non_slash_index + 1
    } else {
        non_slash_index
    };
    let end_text_index = trimmed_end(chars, start_text_index, chars.len());
    let mut comment: Vec<char> = Vec::new();
    comment.push('/');
    comment.push('/');
    let mut index: usize = 0;
    while index < non_slash_index
        invariant
            index <= non_slash_index <= chars@.len(),
            comment@ == seq!['/', '/'] + chars@.take(index as int),
        decreases non_slash_index - index,
    {
        comment.push(chars[index]);
        index = index + 1;
        assert(comment@ =~= seq!['/', '/'] + chars@.take(index as int));
    }
    if end_text_index > start_text_index {
        if force_space_after_slashes {
            comment.push(' ');
        }
        let ghost prefix = comment@;
        let mut index: usize = start_text_index;
        while index < end_text_index
            invariant
                start_text_index <= index <= end_text_index <= chars@.len(),
                comment@ == prefix + chars@.subrange(start_text_index as int, index as int),
            decreases end_text_index - index,
        {
            comment.push(chars[index]);
            index = index + 1;
            assert(comment@ =~= prefix + chars@.subrange(start_text_index as int, index as int));
        }
    }
    assert(comment@ =~= comment_line_text(chars@, force_space_after_slashes));
    comment
}

/// Parses the provided text to a JS-like comment line (ex. `// some text`).
/// No line breaks within it, and a line break is owed after it.
pub fn parse_js_like_comment_line(text: &str, force_space_after_slashes: bool) -> (items: PrintItems)
    ensures
        items.text_view() == seq![ItemText::Signal(Signal::StartForceNoNewLines)] + raw_text_items(
            comment_line_text(text@, force_space_after_slashes),
            false,
        ) + seq![ItemText::Signal(Signal::ExpectNewLine), ItemText::Signal(Signal::FinishForceNoNewLines)],
{
    let chars = to_chars(text);
    let comment = get_comment_text(&chars, force_space_after_slashes);
    let mut items = PrintItems::new();
    assert(items.text_view() =~= Seq::<ItemText>::empty());
    items.extend(parse_raw_string_lines(&comment, false));
    items.push_signal(Signal::ExpectNewLine);
    let ghost inner = items;
    let items = with_no_new_lines(items);
    assert(items.text_view() =~= seq![ItemText::Signal(Signal::StartForceNoNewLines)] + inner.text_view() + seq![
        ItemText::Signal(Signal::FinishForceNoNewLines),
    ]);
    assert(items.text_view() =~= seq![ItemText::Signal(Signal::StartForceNoNewLines)] + raw_text_items(
        comment_line_text(text@, force_space_after_slashes),
        false,
    ) + seq![ItemText::Signal(Signal::ExpectNewLine), ItemText::Signal(Signal::FinishForceNoNewLines)]);
    items
}

/// The last place where `c` stands in `text`; -1 when there is none.
pub open spec fn last_index_of(text: Seq<char>, c: char) -> int
    decreases text.len(),
{
    if text.len() == 0 {
        -1
    } else if text.last() == c {
        text.len() - 1
    } else {
        last_index_of(text.drop_last(), c)
    }
}

/// Of the white space at the end of `text`, what follows its last newline.
pub open spec fn last_line_trailing_whitespace(text: Seq<char>) -> Seq<char> {
    let end_text = text.subrange(trimmed_len(text) as int, text.len() as int);
    end_text.subrange(last_index_of(end_text, '\n') + 1, end_text.len() as int)
}

/// Where the white space of the last line starts.
fn get_last_line_trailing_whitespace(chars: &Vec<char>) -> (start: usize)
    ensures
        start <= chars@.len(),
        chars@.subrange(start as int, chars@.len() as int) == last_line_trailing_whitespace(chars@),
        !chars@.subrange(start as int, chars@.len() as int).contains('\n'),
{
    let trimmed = trimmed_end(chars, 0, chars.len());
    assert(chars@.subrange(0, chars@.len() as int) =~= chars@);
    let ghost end_text = chars@.subrange(trimmed as int, chars@.len() as int);
    let mut start = chars.len();
    assert(chars@.subrange(trimmed as int, start as int) =~= end_text);
    while start > trimmed && chars[start - 1] != '\n'
        invariant
            trimmed <= start <= chars@.len(),
            end_text == chars@.subrange(trimmed as int, chars@.len() as int),
            forall|i: int| start <= i < chars@.len() ==> chars@[i] != '\n',
            last_index_of(chars@.subrange(trimmed as int, start as int), '\n') == last_index_of(end_text, '\n'),
        decreases start,
    {
        assert(chars@.subrange(trimmed as int, start as int).drop_last() =~= chars@.subrange(
            trimmed as int,
            start - 1,
        ));
        start = start - 1;
    }
    assert(chars@.subrange(start as int, chars@.len() as int) =~= end_text.subrange(
        last_index_of(end_text, '\n') + 1,
        end_text.len() as int,
    ));
    start
}

/// Parses the provided text to a JS-like comment block (ex. `/** some
/// text */`): the lines without the white space at their ends, but with
/// that of the last line.
pub fn parse_js_like_comment_block(text: &str) -> (items: PrintItems)
    ensures
        items.text_view() == if text@.contains('\n') {
            seq![ItemText::Text(seq!['/', '*']), ItemText::Signal(Signal::StartIgnoringIndent)] + text_items(
                text@,
                0,
                true,
            ) + line_items(last_line_trailing_whitespace(text@), 0) + seq![
                ItemText::Signal(Signal::FinishIgnoringIndent),
                ItemText::Text(seq!['*', '/']),
            ]
        } else {
            seq![ItemText::Text(seq!['/', '*'])] + text_items(text@, 0, true) + line_items(
                last_line_trailing_whitespace(text@),
                0,
            ) + seq![ItemText::Text(seq!['*', '/'])]
        },
{
    let chars = to_chars(text);
    let mut items = PrintItems::new();
    let add_ignore_indent = contains_char(&chars, '\n');
    let trailing_start = get_last_line_trailing_whitespace(&chars);
    proof {
        reveal_strlit("/*");
        reveal_strlit("*/");
        assert("/*"@ =~= seq!['/', '*']);
        assert("*/"@ =~= seq!['*', '/']);
        assert(items.text_view() =~= Seq::<ItemText>::empty());
    }
    items.push_str("/*");
    if add_ignore_indent {
        items.push_signal(Signal::StartIgnoringIndent);
    }
    items.extend(parse_string_lines(&chars, true));
    items.extend(parse_string_line(&chars, trailing_start, chars.len()));
    if add_ignore_indent {
        items.push_signal(Signal::FinishIgnoringIndent);
    }
    items.push_str("*/");
    assert(items.text_view() =~= if text@.contains('\n') {
        seq![ItemText::Text(seq!['/', '*']), ItemText::Signal(Signal::StartIgnoringIndent)] + text_items(
            text@,
            0,
            true,
        ) + line_items(last_line_trailing_whitespace(text@), 0) + seq![
            ItemText::Signal(Signal::FinishIgnoringIndent),
            ItemText::Text(seq!['*', '/']),
        ]
    } else {
        seq![ItemText::Text(seq!['/', '*'])] + text_items(text@, 0, true) + line_items(
            last_line_trailing_whitespace(text@),
            0,
        ) + seq![ItemText::Text(seq!['*', '/'])]
    });
    items
}

/// `needle` stands in `text` at `position`.
pub open spec fn occurs_at(text: Seq<char>, needle: Seq<char>, position: int) -> bool {
    &&& 0 <= position
    &&& position + needle.len() <= text.len()
    &&& text.subrange(position, position + needle.len()) == needle
}

/// `position` is the first place where `needle` stands in `text`.
pub open spec fn is_first_occurrence(text: Seq<char>, needle: Seq<char>, position: int) -> bool {
    &&& occurs_at(text, needle, position)
    &&& forall|earlier: int| 0 <= earlier < position ==> !occurs_at(text, needle, earlier)
}

/// Neither a letter nor a number stands right before or right after
/// `needle` at `position`.
pub open spec fn stands_alone_at(text: Seq<char>, needle: Seq<char>, position: int) -> bool {
    &&& position > 0 ==> !is_alphanumeric_char(text[position - 1])
    &&& position + needle.len() < text.len() ==> !is_alphanumeric_char(text[position + needle.len()])
}

fn is_at(text: &Vec<char>, needle: &Vec<char>, position: usize) -> (found: bool)
    requires
        position + needle@.len() <= text@.len(),
    ensures
        found == occurs_at(text@, needle@, position as int),
{
    let length = text.len();
    let mut index: usize = 0;
    while index < needle.len()
        invariant
            index <= needle@.len(),
            length == text@.len(),
            position + needle@.len() <= text@.len(),
            forall|i: int| 0 <= i < index ==> text@[position + i] == needle@[i],
        decreases needle@.len() - index,
    {
        if text[position + index] != needle[index] {
            assert(text@.subrange(position as int, position + needle@.len())[index as int] != needle@[index as int]);
            return false;
        }
        index = index + 1;
    }
    assert(text@.subrange(position as int, position + needle@.len()) =~= needle@);
    true
}

/// The first place where `needle` stands in `text`.
fn find(text: &Vec<char>, needle: &Vec<char>) -> (position: Option<usize>)
    ensures
        position matches Some(found) ==> is_first_occurrence(text@, needle@, found as int),
        position is None ==> forall|any: int| !occurs_at(text@, needle@, any),
{
    if needle.len() > text.len() {
        return None;
    }
    let last = text.len() - needle.len();
    let mut position: usize = 0;
    loop
        invariant
            last == text@.len() - needle@.len(),
            position <= last,
            forall|earlier: int| 0 <= earlier < position ==> !occurs_at(text@, needle@, earlier),
        decreases last - position,
    {
        if is_at(text, needle, position) {
            return Some(position);
        }
        if position == last {
            return None;
        }
        position = position + 1;
    }
}

/// Gets if the provided text has the provided searching text in it (ex.
/// "dprint-ignore"): whether it stands alone where it first occurs.
pub fn text_has_dprint_ignore(text: &str, searching_text: &str) -> (found: bool)
    ensures
        found == exists|position: int|
            is_first_occurrence(text@, searching_text@, position) && stands_alone_at(
                text@,
                searching_text@,
                position,
            ),
{
    let chars = to_chars(text);
    let needle = to_chars(searching_text);
    let length = chars.len();
    match find(&chars, &needle) {
        Some(pos) => {
            let end = pos + needle.len();
            let found = if pos > 0 && char_is_alphanumeric(chars[pos - 1]) {
                false
            } else if end < length && char_is_alphanumeric(chars[end]) {
                false
            } else {
                true
            };
            proof {
                if found {
                    assert(is_first_occurrence(text@, searching_text@, pos as int) && stands_alone_at(
                        text@,
                        searching_text@,
                        pos as int,
                    ));
                } else {
                    assert forall|position: int|
                        is_first_occurrence(text@, searching_text@, position) implies !stands_alone_at(
                        text@,
                        searching_text@,
                        position,
                    ) by {
                        assert(position == pos);
                    }
                }
            }
            found
        },
        None => false,
    }
}

} // verus!
